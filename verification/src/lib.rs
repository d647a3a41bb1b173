//! Reconstructs the registry of a deployed on-chain world — its central
//! coordinator, the components deployed under it and the data schemas
//! registered with it — purely by replaying the ledger's append-only
//! event log: a paginated fetch, a classification of the raw events by
//! signature, a latest-wins reconciliation of component upgrades, a
//! chain-link fold of schema registrations, a name-resolution pass, and
//! the assembly of one immutable snapshot.

pub mod bootstrap;
pub mod contract_state;
pub mod errors;
pub mod event;
pub mod felt;
pub mod fetch;
pub mod manifest;
pub mod model_registry;
pub mod replay;
pub mod resolve;
pub mod short_string;
