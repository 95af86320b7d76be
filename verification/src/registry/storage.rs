//! Reading and writing the registry's stored values.
use vstd::prelude::*;

use crate::ids::{addresses_distinct, copy_ids, listed, Address, AddressSet, CreditId};
use super::types::{CreditMetadata, VerifierReputation};
use super::{project_list, reputation_of, CreditRegistry, RegistryModel};

verus! {

/// Records `admin` as the administrator.
pub fn set_admin(reg: &mut CreditRegistry, admin: &Address)
    ensures
        final(reg)@ == (RegistryModel { admin: Some(*admin), ..old(reg)@ }),
{
    reg.admin = Some(admin.clone());
}

/// The administrator, if one was set.
pub fn get_admin(reg: &CreditRegistry) -> (r: Option<Address>)
    ensures
        r == reg@.admin,
{
    match &reg.admin {
        Some(a) => Some(a.clone()),
        None => None,
    }
}

/// Whether an administrator was set.
pub fn has_admin(reg: &CreditRegistry) -> (r: bool)
    ensures
        r == reg@.admin is Some,
{
    reg.admin.is_some()
}

/// Stores `metadata` under `id`.
pub fn set_credit(reg: &mut CreditRegistry, id: &CreditId, metadata: CreditMetadata)
    ensures
        final(reg)@ == (RegistryModel { credits: old(reg)@.credits.insert(id@, metadata), ..old(reg)@ }),
{
    reg.credits.insert(*id, metadata);
    proof {
        assert(reg@.project_credits =~= old(reg)@.project_credits);
    }
}

/// The credit stored under `id`, if any.
pub fn get_credit(reg: &CreditRegistry, id: &CreditId) -> (r: Option<CreditMetadata>)
    ensures
        r is Some == reg@.credits.contains_key(id@),
        r matches Some(m) ==> m == reg@.credits[id@],
{
    match reg.credits.get(id) {
        Some(m) => Some(m.clone()),
        None => None,
    }
}

/// The verifiers.
pub fn get_verifiers(reg: &CreditRegistry) -> (r: Vec<Address>)
    ensures
        r@ == reg@.verifiers,
        addresses_distinct(r@),
{
    reg.verifiers.to_vec()
}

/// Replaces the verifiers with `verifiers`, which hold no address twice.
pub fn set_verifiers(reg: &mut CreditRegistry, verifiers: Vec<Address>)
    requires
        addresses_distinct(verifiers@),
    ensures
        final(reg)@ == (RegistryModel { verifiers: verifiers@, ..old(reg)@ }),
{
    reg.verifiers = AddressSet::from_vec(verifiers);
    proof {
        assert(reg@.project_credits =~= old(reg)@.project_credits);
    }
}

/// Whether `verifier` is among the verifiers.
pub fn is_verifier(reg: &CreditRegistry, verifier: &Address) -> (r: bool)
    ensures
        r == listed(reg@.verifiers, verifier@),
        addresses_distinct(reg@.verifiers),
{
    reg.verifiers.contains(verifier)
}

/// Appends `credit_id` to the credits listed under `project_id`.
pub fn add_credit_to_project(reg: &mut CreditRegistry, project_id: &String, credit_id: &CreditId)
    ensures
        final(reg)@ == (RegistryModel {
            project_credits: old(reg)@.project_credits.insert(
                project_id@,
                project_list(old(reg)@, project_id@).push(*credit_id),
            ),
            ..old(reg)@
        }),
{
    let mut list = get_credits_by_project(reg, project_id);
    list.push(*credit_id);
    reg.project_credits.insert(project_id.clone(), list);
    proof {
        assert(reg@.project_credits =~= old(reg)@.project_credits.insert(
            project_id@,
            project_list(old(reg)@, project_id@).push(*credit_id),
        ));
    }
}

/// The credits listed under `project_id`, in the order they were submitted.
pub fn get_credits_by_project(reg: &CreditRegistry, project_id: &String) -> (r: Vec<CreditId>)
    ensures
        r@ == project_list(reg@, project_id@),
{
    match reg.project_credits.get(project_id) {
        Some(list) => copy_ids(list),
        None => Vec::new(),
    }
}

/// Records the address of the retirement contract.
pub fn set_retirement_contract(reg: &mut CreditRegistry, addr: &Address)
    ensures
        final(reg)@ == (RegistryModel { retirement_contract: Some(*addr), ..old(reg)@ }),
{
    reg.retirement_contract = Some(addr.clone());
}

/// The address of the retirement contract, if one was set.
pub fn get_retirement_contract(reg: &CreditRegistry) -> (r: Option<Address>)
    ensures
        r == reg@.retirement_contract,
{
    match &reg.retirement_contract {
        Some(a) => Some(a.clone()),
        None => None,
    }
}

/// Records whether the registry is paused.
pub fn set_paused(reg: &mut CreditRegistry, paused: bool)
    ensures
        final(reg)@ == (RegistryModel { paused, ..old(reg)@ }),
{
    reg.paused = paused;
}

/// Whether the registry is paused.
pub fn is_paused(reg: &CreditRegistry) -> (r: bool)
    ensures
        r == reg@.paused,
{
    reg.paused
}

/// The reputation of `verifier`, no approvals and no disputes if none was recorded.
pub fn get_verifier_reputation(reg: &CreditRegistry, verifier: &Address) -> (r: VerifierReputation)
    ensures
        r == reputation_of(reg@, verifier@),
{
    match reg.reputations.get(verifier) {
        Some(rep) => *rep,
        None => VerifierReputation { approval_count: 0, dispute_count: 0 },
    }
}

/// Records `rep` as the reputation of `verifier`.
pub fn set_verifier_reputation(reg: &mut CreditRegistry, verifier: &Address, rep: VerifierReputation)
    ensures
        final(reg)@ == (RegistryModel { reputations: old(reg)@.reputations.insert(verifier@, rep), ..old(reg)@ }),
{
    reg.reputations.insert(verifier.clone(), rep);
    proof {
        assert(reg@.project_credits =~= old(reg)@.project_credits);
    }
}

} // verus!
