//! The events that the registry publishes, appended to its event log.
use vstd::prelude::*;

use crate::ids::{Address, CreditId};
use super::types::RegistryEvent;
use super::{CreditRegistry, RegistryModel};

verus! {

/// Publishes that `issuer` submitted `tonnes` for `project_id`.
pub fn credit_submitted(reg: &mut CreditRegistry, issuer: Address, project_id: String, tonnes: i128)
    ensures
        final(reg)@ == (RegistryModel {
            events: old(reg)@.events.push(RegistryEvent::CreditSubmitted { issuer, project_id, tonnes }),
            ..old(reg)@
        }),
{
    reg.events.push(RegistryEvent::CreditSubmitted { issuer, project_id, tonnes });
}

/// Publishes that `verifier` minted the credit `id`.
pub fn credit_minted(reg: &mut CreditRegistry, verifier: Address, id: CreditId)
    ensures
        final(reg)@ == (RegistryModel {
            events: old(reg)@.events.push(RegistryEvent::CreditMinted { verifier, id }),
            ..old(reg)@
        }),
{
    reg.events.push(RegistryEvent::CreditMinted { verifier, id });
}

/// Publishes that the credit `id` was flagged for `reason`.
pub fn credit_flagged(reg: &mut CreditRegistry, id: CreditId, reason: String)
    ensures
        final(reg)@ == (RegistryModel {
            events: old(reg)@.events.push(RegistryEvent::CreditFlagged { id, reason }),
            ..old(reg)@
        }),
{
    reg.events.push(RegistryEvent::CreditFlagged { id, reason });
}

/// Publishes that `admin` added `verifier`.
pub fn verifier_added(reg: &mut CreditRegistry, admin: Address, verifier: Address)
    ensures
        final(reg)@ == (RegistryModel {
            events: old(reg)@.events.push(RegistryEvent::VerifierAdded { admin, verifier }),
            ..old(reg)@
        }),
{
    reg.events.push(RegistryEvent::VerifierAdded { admin, verifier });
}

/// Publishes that `admin` removed `verifier`.
pub fn verifier_removed(reg: &mut CreditRegistry, admin: Address, verifier: Address)
    ensures
        final(reg)@ == (RegistryModel {
            events: old(reg)@.events.push(RegistryEvent::VerifierRemoved { admin, verifier }),
            ..old(reg)@
        }),
{
    reg.events.push(RegistryEvent::VerifierRemoved { admin, verifier });
}

/// Publishes that `admin` paused the registry.
pub fn contract_paused(reg: &mut CreditRegistry, admin: Address)
    ensures
        final(reg)@ == (RegistryModel {
            events: old(reg)@.events.push(RegistryEvent::ContractPaused { admin }),
            ..old(reg)@
        }),
{
    reg.events.push(RegistryEvent::ContractPaused { admin });
}

/// Publishes that `admin` resumed the registry.
pub fn contract_unpaused(reg: &mut CreditRegistry, admin: Address)
    ensures
        final(reg)@ == (RegistryModel {
            events: old(reg)@.events.push(RegistryEvent::ContractUnpaused { admin }),
            ..old(reg)@
        }),
{
    reg.events.push(RegistryEvent::ContractUnpaused { admin });
}

} // verus!
