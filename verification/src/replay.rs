use vstd::prelude::*;

use crate::contract_state::{
    deploy_shaped, parse_contracts_events, reconciled_class, upgrade_shaped,
};
use crate::errors::ManifestError;
use crate::event::{
    classify_events, event_selector, has_signature, starknet_keccak_of, views, RawEvent,
    RawEventView,
};
use crate::manifest::{bare_contract, Contract, Model};
use crate::model_registry::{
    all_names_decodable, model_map, names_unique, parse_models_events, registered_models,
    registration_shaped,
};

verus! {

/// The signature of schema-registration events.
pub open spec fn registered_sig() -> Seq<u8> {
    starknet_keccak_of("ModelRegistered"@)
}

/// The signature of component-deployment events.
pub open spec fn deployed_sig() -> Seq<u8> {
    starknet_keccak_of("ContractDeployed"@)
}

/// The signature of component-upgrade events.
pub open spec fn upgraded_sig() -> Seq<u8> {
    starknet_keccak_of("ContractUpgraded"@)
}

/// The registration bucket of the raw sequence, in retrieval order.
pub open spec fn registration_bucket(events: Seq<RawEventView>) -> Seq<RawEventView> {
    events.filter(|e: RawEventView| has_signature(e, registered_sig()))
}

/// The deployment bucket of the raw sequence, in retrieval order.
pub open spec fn deployment_bucket(events: Seq<RawEventView>) -> Seq<RawEventView> {
    events.filter(
        |e: RawEventView| has_signature(e, deployed_sig()) && !has_signature(e, registered_sig()),
    )
}

/// The upgrade bucket of the raw sequence, in retrieval order.
pub open spec fn upgrade_bucket(events: Seq<RawEventView>) -> Seq<RawEventView> {
    events.filter(
        |e: RawEventView|
            has_signature(e, upgraded_sig()) && !has_signature(e, registered_sig())
                && !has_signature(e, deployed_sig()),
    )
}

/// Whether every classified event carries its kind's payload shape:
/// `[class_hash, prev_class_hash, name]` for a registration,
/// `[salt, class_hash, address]` for a deployment,
/// `[class_hash, address]` for an upgrade.
pub open spec fn buckets_well_shaped(events: Seq<RawEventView>) -> bool {
    &&& forall|i: int|
        0 <= i < registration_bucket(events).len() ==> registration_shaped(
            #[trigger] registration_bucket(events)[i],
        )
    &&& forall|i: int|
        0 <= i < deployment_bucket(events).len() ==> deploy_shaped(
            #[trigger] deployment_bucket(events)[i],
        )
    &&& forall|i: int|
        0 <= i < upgrade_bucket(events).len() ==> upgrade_shaped(
            #[trigger] upgrade_bucket(events)[i],
        )
}

fn all_payloads_at_least(v: &Vec<RawEvent>, n: usize) -> (r: bool)
    ensures
        r <==> forall|i: int| 0 <= i < v@.len() ==> (#[trigger] v@[i]@).data.len() >= n,
{
    let mut i: usize = 0;
    #[verifier::loop_isolation(false)]
    while i < v.len()
        invariant
            i <= v@.len(),
            forall|k: int| 0 <= k < i ==> (#[trigger] v@[k]@).data.len() >= n,
        decreases v@.len() - i,
    {
        if v[i].data.len() < n {
            proof {
                assert((v@[i as int]@).data.len() < n);
            }
            return false;
        }
        i = i + 1;
    }
    true
}

/// The pure core of a remote reconstruction, after the paginated fetch
/// and before the name-resolution calls: classifies the flat raw event
/// sequence by signature and folds the deployment, upgrade and
/// registration buckets into the reconciled contract list and the model
/// registry.
///
/// A matched event whose payload is shorter than its kind's shape is
/// reported as a provider (deserialization) failure; a registration
/// whose packed name is not decodable text is a short-string failure.
pub fn reconcile_events(events: &Vec<RawEvent>) -> (r: Result<
    (Vec<Model>, Vec<Contract>),
    ManifestError,
>)
    ensures
        r is Ok <==> buckets_well_shaped(views(events@)) && all_names_decodable(
            registration_bucket(views(events@)),
        ),
        r matches Ok(mc) ==> {
            let regs = registration_bucket(views(events@));
            let deps = deployment_bucket(views(events@));
            let upgs = upgrade_bucket(views(events@));
            &&& model_map(mc.0@) == registered_models(regs)
            &&& names_unique(mc.0@)
            &&& forall|i: int|
                0 <= i < mc.0@.len() ==> (#[trigger] mc.0@[i]).members@.len() == 0
                    && mc.0@[i].abi is None
            &&& mc.1@.len() == deps.len()
            &&& forall|i: int|
                0 <= i < mc.1@.len() ==> {
                    let c = #[trigger] mc.1@[i];
                    &&& bare_contract(c)
                    &&& c.address matches Some(a) && a@ == deps[i].data[2]
                    &&& c.class_hash@ == reconciled_class(deps[i], upgs)
                }
        },
        r matches Err(e) ==> if !buckets_well_shaped(views(events@)) {
            e == ManifestError::Provider
        } else {
            e == ManifestError::ShortStringDecode
        },
{
    let reg_sig = event_selector("ModelRegistered");
    let dep_sig = event_selector("ContractDeployed");
    let upg_sig = event_selector("ContractUpgraded");
    let (registered, deployed, upgraded) = classify_events(events, &reg_sig, &dep_sig, &upg_sig);
    proof {
        assert((|e: RawEventView| has_signature(e, reg_sig@)) =~= (
        |e: RawEventView| has_signature(e, registered_sig())));
        assert((|e: RawEventView| has_signature(e, dep_sig@) && !has_signature(e, reg_sig@)) =~= (
        |e: RawEventView| has_signature(e, deployed_sig()) && !has_signature(e, registered_sig())));
        assert((|e: RawEventView|
            has_signature(e, upg_sig@) && !has_signature(e, reg_sig@) && !has_signature(
                e,
                dep_sig@,
            )) =~= (|e: RawEventView|
            has_signature(e, upgraded_sig()) && !has_signature(e, registered_sig())
                && !has_signature(e, deployed_sig())));
        assert(views(registered@) == registration_bucket(views(events@)));
        assert(views(deployed@) == deployment_bucket(views(events@)));
        assert(views(upgraded@) == upgrade_bucket(views(events@)));
    }
    let regs_ok = all_payloads_at_least(&registered, 3);
    let deps_ok = all_payloads_at_least(&deployed, 3);
    let upgs_ok = all_payloads_at_least(&upgraded, 2);
    if !(regs_ok && deps_ok && upgs_ok) {
        proof {
            if !regs_ok {
                let k = choose|i: int|
                    0 <= i < registered@.len() && (#[trigger] registered@[i]@).data.len() < 3;
                assert(registration_bucket(views(events@))[k] == registered@[k]@);
            } else if !deps_ok {
                let k = choose|i: int|
                    0 <= i < deployed@.len() && (#[trigger] deployed@[i]@).data.len() < 3;
                assert(deployment_bucket(views(events@))[k] == deployed@[k]@);
            } else {
                let k = choose|i: int|
                    0 <= i < upgraded@.len() && (#[trigger] upgraded@[i]@).data.len() < 2;
                assert(upgrade_bucket(views(events@))[k] == upgraded@[k]@);
            }
            assert(!buckets_well_shaped(views(events@)));
        }
        return Err(ManifestError::Provider);
    }
    proof {
        assert forall|i: int| 0 <= i < registration_bucket(views(events@)).len() implies
            registration_shaped(#[trigger] registration_bucket(views(events@))[i]) by {
            assert(registration_bucket(views(events@))[i] == registered@[i]@);
        }
        assert forall|i: int| 0 <= i < deployment_bucket(views(events@)).len() implies deploy_shaped(
            #[trigger] deployment_bucket(views(events@))[i],
        ) by {
            assert(deployment_bucket(views(events@))[i] == deployed@[i]@);
        }
        assert forall|i: int| 0 <= i < upgrade_bucket(views(events@)).len() implies upgrade_shaped(
            #[trigger] upgrade_bucket(views(events@))[i],
        ) by {
            assert(upgrade_bucket(views(events@))[i] == upgraded@[i]@);
        }
        assert(buckets_well_shaped(views(events@)));
    }
    let models = match parse_models_events(&registered) {
        Ok(m) => m,
        Err(err) => {
            return Err(err);
        },
    };
    let contracts = parse_contracts_events(&deployed, &upgraded);
    Ok((models, contracts))
}

} // verus!
