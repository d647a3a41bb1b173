use dojo_world::bootstrap::{normalize_component_address, world_class_hash_from, ClassHashOutcome};
use dojo_world::contract_state::parse_contracts_events;
use dojo_world::errors::ManifestError;
use dojo_world::event::RawEvent;
use dojo_world::felt::Felt;
use dojo_world::fetch::{EventFetch, EventPage};
use dojo_world::manifest::assemble_manifest;
use dojo_world::model_registry::parse_models_events;
use dojo_world::replay::reconcile_events;
use dojo_world::resolve::{enrich_contracts, resolve_name, CallOutcome};
use dojo_world::short_string::short_string_to_felt;

fn felt(bytes: &[u8]) -> Felt {
    Felt::from_bytes(&bytes.to_vec())
}

fn selector(name: &str) -> Felt {
    let digest = starknet_core::utils::starknet_keccak(name.as_bytes());
    felt(&digest.to_bytes_be())
}

fn deploy_event(salt: u8, class_hash: u8, address: u8, block: Option<u64>) -> RawEvent {
    RawEvent {
        keys: vec![selector("ContractDeployed")],
        data: vec![felt(&[salt]), felt(&[class_hash]), felt(&[address])],
        block_number: block,
    }
}

fn upgrade_event(class_hash: u8, address: u8, block: Option<u64>) -> RawEvent {
    RawEvent {
        keys: vec![selector("ContractUpgraded")],
        data: vec![felt(&[class_hash]), felt(&[address])],
        block_number: block,
    }
}

fn register_event(name: &str, class_hash: u8, prev: u8) -> RawEvent {
    RawEvent {
        keys: vec![selector("ModelRegistered")],
        data: vec![
            felt(&[class_hash]),
            felt(&[prev]),
            short_string_to_felt(name).unwrap(),
        ],
        block_number: Some(1),
    }
}

#[test]
fn latest_upgrade_wins_for_single_address() {
    let deployed = vec![deploy_event(0, 0x1, 0xA, Some(1))];
    let upgraded = vec![
        upgrade_event(0x2, 0xA, Some(5)),
        upgrade_event(0x9, 0xA, Some(3)),
        upgrade_event(0x7, 0xA, Some(4)),
    ];
    let contracts = parse_contracts_events(&deployed, &upgraded);
    assert_eq!(contracts.len(), 1);
    assert_eq!(contracts[0].class_hash.bytes, felt(&[0x2]).bytes);
}

#[test]
fn upgrade_tie_keeps_earliest_event() {
    let deployed = vec![deploy_event(0, 0x1, 0xA, Some(1))];
    let upgraded = vec![upgrade_event(0x2, 0xA, Some(5)), upgrade_event(0x3, 0xA, Some(5))];
    let contracts = parse_contracts_events(&deployed, &upgraded);
    assert_eq!(contracts[0].class_hash.bytes, felt(&[0x2]).bytes);
}

#[test]
fn blockless_upgrades_never_influence_result() {
    let deployed = vec![deploy_event(0, 0x1, 0xA, Some(1))];
    let upgraded = vec![upgrade_event(0x9, 0xA, None)];
    let contracts = parse_contracts_events(&deployed, &upgraded);
    assert_eq!(contracts[0].class_hash.bytes, felt(&[0x1]).bytes);

    let mixed = vec![upgrade_event(0x2, 0xA, Some(5)), upgrade_event(0x9, 0xA, None)];
    let contracts = parse_contracts_events(&deployed, &mixed);
    assert_eq!(contracts[0].class_hash.bytes, felt(&[0x2]).bytes);
}

#[test]
fn upgrade_without_deployment_is_dropped() {
    let deployed: Vec<RawEvent> = vec![];
    let upgraded = vec![upgrade_event(0x2, 0xA, Some(5))];
    let contracts = parse_contracts_events(&deployed, &upgraded);
    assert!(contracts.is_empty());
}

#[test]
fn registration_chain_links_apply_in_order() {
    let events = vec![
        register_event("Position", 0x1, 0x0),
        register_event("Position", 0x2, 0x1),
        register_event("Position", 0x3, 0x99),
    ];
    let models = parse_models_events(&events).unwrap();
    assert_eq!(models.len(), 1);
    assert_eq!(models[0].name, "Position");
    assert_eq!(models[0].class_hash.bytes, felt(&[0x2]).bytes);
    assert!(models[0].members.is_empty());
    assert!(models[0].abi.is_none());
}

#[test]
fn registration_with_undecodable_name_fails() {
    let mut bad = register_event("Position", 0x1, 0x0);
    let mut bytes = vec![0u8; 32];
    bytes[0] = 9;
    bad.data[2] = Felt::from_bytes(&bytes);
    let events = vec![bad];
    assert_eq!(parse_models_events(&events).err(), Some(ManifestError::ShortStringDecode));
}

#[test]
fn pagination_concatenates_all_pages() {
    let mut fetch = EventFetch::new();
    let pages = vec![
        (vec![deploy_event(0, 0x1, 0xA, Some(1))], Some("t1".to_string())),
        (vec![deploy_event(0, 0x2, 0xB, Some(2))], Some("t2".to_string())),
        (vec![deploy_event(0, 0x3, 0xC, Some(3))], None),
    ];
    let mut calls: usize = 0;
    for (events, token) in pages {
        assert!(!fetch.done);
        calls += 1;
        fetch.absorb_page(EventPage { events, continuation_token: token });
    }
    assert!(fetch.done);
    assert_eq!(calls, 3);
    assert_eq!(fetch.events.len(), 3);
    assert_eq!(fetch.events[0].data[2].bytes, felt(&[0xA]).bytes);
    assert_eq!(fetch.events[1].data[2].bytes, felt(&[0xB]).bytes);
    assert_eq!(fetch.events[2].data[2].bytes, felt(&[0xC]).bytes);
}

#[test]
fn reverted_name_lookup_resolves_to_empty() {
    assert_eq!(resolve_name(&CallOutcome::Reverted), Ok(String::new()));
}

#[test]
fn successful_name_lookup_decodes_short_string() {
    let outcome = CallOutcome::Success(vec![short_string_to_felt("Foo").unwrap()]);
    assert_eq!(resolve_name(&outcome), Ok("Foo".to_string()));
}

#[test]
fn failed_name_lookup_is_fatal() {
    assert_eq!(resolve_name(&CallOutcome::Failed), Err(ManifestError::Provider));
}

#[test]
fn enrichment_names_each_contract() {
    let deployed = vec![deploy_event(0, 0x1, 0xA, Some(1)), deploy_event(0, 0x2, 0xB, Some(2))];
    let mut contracts = parse_contracts_events(&deployed, &vec![]);
    let outcomes = vec![
        CallOutcome::Success(vec![short_string_to_felt("Foo").unwrap()]),
        CallOutcome::Reverted,
    ];
    assert_eq!(enrich_contracts(&mut contracts, &outcomes), Ok(()));
    assert_eq!(contracts[0].name, "Foo");
    assert_eq!(contracts[1].name, "");
}

#[test]
fn enrichment_aborts_on_provider_failure() {
    let deployed = vec![deploy_event(0, 0x1, 0xA, Some(1))];
    let mut contracts = parse_contracts_events(&deployed, &vec![]);
    let outcomes = vec![CallOutcome::Failed];
    assert_eq!(enrich_contracts(&mut contracts, &outcomes), Err(ManifestError::Provider));
}

#[test]
fn missing_world_is_the_distinguished_failure() {
    assert_eq!(
        world_class_hash_from(ClassHashOutcome::ContractNotFound).err(),
        Some(ManifestError::RemoteWorldNotFound)
    );
    assert_eq!(
        world_class_hash_from(ClassHashOutcome::Failed).err(),
        Some(ManifestError::Provider)
    );
    let h = world_class_hash_from(ClassHashOutcome::Found(felt(&[0x5]))).ok().unwrap();
    assert_eq!(h.bytes, felt(&[0x5]).bytes);
}

#[test]
fn zero_address_sentinel_becomes_absent() {
    assert!(normalize_component_address(Felt::zero()).is_none());
    let kept = normalize_component_address(felt(&[0x4])).unwrap();
    assert_eq!(kept.bytes, felt(&[0x4]).bytes);
}

#[test]
fn end_to_end_deploy_then_upgrade() {
    let events = vec![deploy_event(0, 0x1, 0xA, Some(1)), upgrade_event(0x2, 0xA, Some(5))];
    let (models, contracts) = reconcile_events(&events).unwrap();
    assert!(models.is_empty());
    assert_eq!(contracts.len(), 1);
    assert_eq!(contracts[0].address.as_ref().unwrap().bytes, felt(&[0xA]).bytes);
    assert_eq!(contracts[0].class_hash.bytes, felt(&[0x2]).bytes);
}

#[test]
fn end_to_end_model_registration_chain() {
    let events = vec![
        register_event("Position", 0x1, 0x0),
        register_event("Position", 0x2, 0x1),
        register_event("Position", 0x3, 0x99),
    ];
    let (models, contracts) = reconcile_events(&events).unwrap();
    assert!(contracts.is_empty());
    assert_eq!(models.len(), 1);
    assert_eq!(models[0].name, "Position");
    assert_eq!(models[0].class_hash.bytes, felt(&[0x2]).bytes);
}

#[test]
fn unmatched_events_are_dropped() {
    let stray = RawEvent {
        keys: vec![selector("SomethingElse")],
        data: vec![felt(&[0x1])],
        block_number: Some(1),
    };
    let events = vec![stray, deploy_event(0, 0x1, 0xA, Some(1))];
    let (models, contracts) = reconcile_events(&events).unwrap();
    assert!(models.is_empty());
    assert_eq!(contracts.len(), 1);
}

#[test]
fn malformed_payload_is_a_provider_failure() {
    let truncated = RawEvent {
        keys: vec![selector("ContractUpgraded")],
        data: vec![felt(&[0x1])],
        block_number: Some(1),
    };
    let events = vec![truncated];
    assert_eq!(reconcile_events(&events).err(), Some(ManifestError::Provider));
}

#[test]
fn assembled_manifest_carries_fixed_names() {
    let deployed = vec![deploy_event(0, 0x1, 0xA, Some(1))];
    let contracts = parse_contracts_events(&deployed, &vec![]);
    let manifest = assemble_manifest(
        felt(&[0xAA]),
        felt(&[0x11]),
        felt(&[0x22]),
        felt(&[0x33]),
        normalize_component_address(Felt::zero()),
        contracts,
        vec![],
    );
    assert_eq!(manifest.world.name, "dojo::world::world");
    assert_eq!(manifest.world.address.as_ref().unwrap().bytes, felt(&[0xAA]).bytes);
    assert_eq!(manifest.world.class_hash.bytes, felt(&[0x11]).bytes);
    assert_eq!(manifest.base.name, "dojo::base::base");
    assert_eq!(manifest.base.class_hash.bytes, felt(&[0x22]).bytes);
    assert_eq!(
        manifest.resource_metadata.name,
        "dojo::resource_metadata::resource_metadata"
    );
    assert!(manifest.resource_metadata.address.is_none());
    assert_eq!(manifest.contracts.len(), 1);
    assert!(manifest.models.is_empty());
}
