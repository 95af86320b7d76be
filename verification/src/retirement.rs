//! The retirement ledger: a buyer retires an active credit for a stated reason;
//! the ledger keeps an immutable record, indexes it under the buyer, and has
//! the registry mark the credit retired.
//!
//! A request names the address that acts for it; that this address authorized
//! the request is for the Soroban host to check, and is not modelled here.

use vstd::prelude::*;

use crate::host::{bytes32_to_xdr, ledger_timestamp, sha256, sha256_of, text_to_xdr, u64_to_xdr, xdr_of_bytes32, xdr_of_text, xdr_of_u64};
use crate::ids::{copy_ids, Address, CreditId};
use crate::registry::types::{CarbonChainError, CreditStatus};
use crate::registry::storage::get_retirement_contract;
use crate::registry::{retire_check, with_credit_status, CreditRegistry};
use crate::table::{entries_map, inserted_all, keys_distinct, lemma_inserted_all_distinct, Table};

verus! {

/// A retirement's identifier: a SHA-256 digest.
pub type RetirementId = [u8; 32];

/// What the ledger records of one retirement.
#[derive(Debug, PartialEq, Eq)]
pub struct RetirementRecord {
    pub credit_id: CreditId,
    pub buyer: Address,
    pub tonnes_retired: i128,
    pub reason: String,
    pub retired_at: u64,
}

impl Clone for RetirementRecord {
    fn clone(&self) -> (r: Self)
        ensures
            r == *self,
    {
        RetirementRecord {
            credit_id: self.credit_id,
            buyer: self.buyer.clone(),
            tonnes_retired: self.tonnes_retired,
            reason: self.reason.clone(),
            retired_at: self.retired_at,
        }
    }
}

/// An event that the retirement ledger publishes.
#[derive(Debug, PartialEq, Eq)]
pub enum RetirementEvent {
    Retired { buyer: Address, credit_id: CreditId, retirement_id: RetirementId },
}

/// The retirement ledger's state, as the contract stores it.
pub struct Retirement {
    records: Table<RetirementId, RetirementRecord>,
    account_retirements: Table<String, Vec<RetirementId>>,
    events: Vec<RetirementEvent>,
}

/// The retirement ledger's state seen as plain values.
pub struct RetirementModel {
    pub records: Map<Seq<u8>, RetirementRecord>,
    pub account_retirements: Map<Seq<char>, Seq<RetirementId>>,
    pub events: Seq<RetirementEvent>,
}

impl View for Retirement {
    type V = RetirementModel;

    closed spec fn view(&self) -> RetirementModel {
        RetirementModel {
            records: self.records.as_map(),
            account_retirements: self.account_retirements.as_map().map_values(|v: Vec<RetirementId>| v@),
            events: self.events@,
        }
    }
}

/// The identifier of the retirement of `credit_id` for `reason` at `timestamp`:
/// the SHA-256 digest of the XDR of the credit id, then of the reason, then of
/// the timestamp.
pub open spec fn retirement_id_of(credit_id: Seq<u8>, reason: Seq<char>, timestamp: u64) -> Seq<u8> {
    sha256_of(xdr_of_bytes32(credit_id) + xdr_of_text(reason) + xdr_of_u64(timestamp))
}

/// The retirements listed under `account` (none if it has no list).
pub open spec fn account_list(m: RetirementModel, account: Seq<char>) -> Seq<RetirementId> {
    if m.account_retirements.contains_key(account) {
        m.account_retirements[account]
    } else {
        Seq::empty()
    }
}

/// The ledger after `record` was stored under `id`.
pub open spec fn after_retire(m: RetirementModel, id: RetirementId, record: RetirementRecord) -> RetirementModel {
    RetirementModel {
        records: m.records.insert(id@, record),
        account_retirements: m.account_retirements.insert(record.buyer@, account_list(m, record.buyer@).push(id)),
        events: m.events.push(
            RetirementEvent::Retired { buyer: record.buyer, credit_id: record.credit_id, retirement_id: id },
        ),
    }
}

/// The retirement ledger's stored values, as they move in and out of contract storage.
pub struct RetirementParts {
    pub records: Vec<(RetirementId, RetirementRecord)>,
    pub account_retirements: Vec<(String, Vec<RetirementId>)>,
}

/// A retirement can be read back under its identifier, as recorded, and is the
/// last retirement listed under its buyer.
pub proof fn lemma_retirement_readable(m: RetirementModel, id: RetirementId, record: RetirementRecord)
    ensures
        after_retire(m, id, record).records.contains_key(id@),
        after_retire(m, id, record).records[id@] == record,
        account_list(after_retire(m, id, record), record.buyer@) == account_list(m, record.buyer@).push(id),
{
}

/// Records are immutable: storing a retirement adds its record under its own
/// identifier and leaves every other record, and every other buyer's list, as
/// it was.
pub proof fn lemma_retirement_keeps_other_records(
    m: RetirementModel,
    id: RetirementId,
    record: RetirementRecord,
    k: Seq<u8>,
    other: Seq<char>,
)
    ensures
        after_retire(m, id, record).records.dom() == m.records.dom().insert(id@),
        m.records.contains_key(k) && k != id@ ==> after_retire(m, id, record).records[k] == m.records[k],
        other != record.buyer@ ==> account_list(after_retire(m, id, record), other) == account_list(m, other),
{
}

/// Once retired, a credit cannot be retired again: the registry refuses it
/// with `InvalidStatusTransition`.
pub proof fn lemma_no_second_retirement(registry: crate::registry::RegistryModel, credit_id: Seq<u8>)
    requires
        retire_check(registry, credit_id) is None,
    ensures
        retire_check(with_credit_status(registry, credit_id, CreditStatus::Retired), credit_id) == Some(
            CarbonChainError::InvalidStatusTransition,
        ),
{
}

/// What a ledger loaded from the stored values `p` holds: of two entries with
/// the same key the later one, and no events.
pub open spec fn loaded_retirement(p: RetirementParts) -> RetirementModel {
    RetirementModel {
        records: inserted_all(Map::empty(), p.records@),
        account_retirements: inserted_all(Map::empty(), p.account_retirements@).map_values(
            |v: Vec<RetirementId>| v@,
        ),
        events: Seq::empty(),
    }
}

/// Whether `p` holds the stored values of `m`, each key once.
pub open spec fn stores_retirement(p: RetirementParts, m: RetirementModel) -> bool {
    &&& keys_distinct(p.records@)
    &&& entries_map(p.records@) == m.records
    &&& keys_distinct(p.account_retirements@)
    &&& entries_map(p.account_retirements@).map_values(|v: Vec<RetirementId>| v@) == m.account_retirements
}

/// Loading what was stored gives back the ledger, but for its events.
pub proof fn lemma_retirement_reloads(p: RetirementParts, m: RetirementModel)
    requires
        stores_retirement(p, m),
    ensures
        loaded_retirement(p) == (RetirementModel { events: Seq::empty(), ..m }),
{
    lemma_inserted_all_distinct(p.records@);
    lemma_inserted_all_distinct(p.account_retirements@);
    assert(loaded_retirement(p).account_retirements =~= m.account_retirements);
}

impl Retirement {
    /// A ledger holding the stored values `parts`, with no events yet. Of two
    /// entries with the same key the later one holds.
    pub fn from_parts(parts: RetirementParts) -> (r: Self)
        ensures
            r@ == loaded_retirement(parts),
    {
        Retirement {
            records: Table::from_entries(parts.records),
            account_retirements: Table::from_entries(parts.account_retirements),
            events: Vec::new(),
        }
    }

    /// The ledger's stored values, each key once.
    pub fn into_parts(self) -> (p: RetirementParts)
        ensures
            stores_retirement(p, self@),
    {
        RetirementParts {
            records: self.records.into_entries(),
            account_retirements: self.account_retirements.into_entries(),
        }
    }

    /// The events published so far, oldest first.
    pub fn events(&self) -> (r: &Vec<RetirementEvent>)
        ensures
            r@ == self@.events,
    {
        &self.events
    }

    /// A retirement ledger that holds nothing yet.
    pub fn new() -> (r: Self)
        ensures
            r@.records == Map::<Seq<u8>, RetirementRecord>::empty(),
            r@.account_retirements == Map::<Seq<char>, Seq<RetirementId>>::empty(),
            r@.events == Seq::<RetirementEvent>::empty(),
    {
        let r = Retirement { records: Table::new(), account_retirements: Table::new(), events: Vec::new() };
        assert(r@.account_retirements =~= Map::<Seq<char>, Seq<RetirementId>>::empty());
        r
    }

    /// The buyer `buyer` retires `tonnes` of the active credit `credit_id` for
    /// `reason`. The record is stored under an identifier derived from the
    /// credit, the reason and the ledger time, and indexed under the buyer; the
    /// registry marks the credit retired. Returns the record's identifier.
    pub fn retire(
        &mut self,
        env: &soroban_sdk::Env,
        buyer: Address,
        credit_id: CreditId,
        tonnes: i128,
        reason: String,
        registry: &mut CreditRegistry,
    ) -> (r: RetirementId)
        requires
            tonnes > 0,
            retire_check(old(registry)@, credit_id@) is None,
        ensures
            r@ == retirement_id_of(credit_id@, reason@, final(self)@.records[r@].retired_at),
            forall|k: Seq<u8>| #[trigger] old(self)@.records.contains_key(k) && k != r@ ==> final(self)@.records.contains_key(k)
                && final(self)@.records[k] == old(self)@.records[k],
            final(self)@ == after_retire(
                old(self)@,
                r,
                RetirementRecord {
                    credit_id,
                    buyer,
                    tonnes_retired: tonnes,
                    reason,
                    retired_at: final(self)@.records[r@].retired_at,
                },
            ),
            final(registry)@ == with_credit_status(old(registry)@, credit_id@, CreditStatus::Retired),
    {
        let retirement_id = self.record_retirement(env, buyer, credit_id, tonnes, reason);
        let marked = registry.mark_retired(credit_id);
        assert(marked is Ok);
        retirement_id
    }

    /// A retirement taken as one transaction: where the registry would refuse
    /// to retire `credit_id`, nothing is recorded, nothing changes, and the
    /// registry's answer is returned; otherwise as [`Retirement::retire`].
    pub fn try_retire(
        &mut self,
        env: &soroban_sdk::Env,
        buyer: Address,
        credit_id: CreditId,
        tonnes: i128,
        reason: String,
        registry: &mut CreditRegistry,
    ) -> (r: Result<RetirementId, CarbonChainError>)
        requires
            tonnes > 0,
        ensures
            retire_check(old(registry)@, credit_id@) matches Some(e) ==> r == Err::<RetirementId, CarbonChainError>(e)
                && final(self)@ == old(self)@ && final(registry)@ == old(registry)@,
            retire_check(old(registry)@, credit_id@) is None ==> r is Ok,
            r matches Ok(id) ==> {
                &&& id@ == retirement_id_of(credit_id@, reason@, final(self)@.records[id@].retired_at)
                &&& final(self)@ == after_retire(
                    old(self)@,
                    id,
                    RetirementRecord {
                        credit_id,
                        buyer,
                        tonnes_retired: tonnes,
                        reason,
                        retired_at: final(self)@.records[id@].retired_at,
                    },
                )
                &&& final(registry)@ == with_credit_status(old(registry)@, credit_id@, CreditStatus::Retired)
                &&& forall|k: Seq<u8>| #[trigger] old(self)@.records.contains_key(k) && k != id@ ==> final(self)@.records.contains_key(k)
                    && final(self)@.records[k] == old(self)@.records[k]
            },
    {
        if get_retirement_contract(registry).is_none() {
            return Err(CarbonChainError::NotInitialized);
        }
        let credit = registry.get_credit(credit_id)?;
        if credit.status != CreditStatus::Active {
            return Err(CarbonChainError::InvalidStatusTransition);
        }
        Ok(self.retire(env, buyer, credit_id, tonnes, reason, registry))
    }

    /// Records the retirement by `buyer` of `tonnes` of the credit `credit_id`
    /// for `reason` at the current ledger time, indexes it under the buyer and
    /// publishes it; the registry has yet to mark the credit retired. Returns
    /// the record's identifier.
    pub fn record_retirement(
        &mut self,
        env: &soroban_sdk::Env,
        buyer: Address,
        credit_id: CreditId,
        tonnes: i128,
        reason: String,
    ) -> (r: RetirementId)
        requires
            tonnes > 0,
        ensures
            r@ == retirement_id_of(credit_id@, reason@, final(self)@.records[r@].retired_at),
            forall|k: Seq<u8>| #[trigger] old(self)@.records.contains_key(k) && k != r@ ==> final(self)@.records.contains_key(k)
                && final(self)@.records[k] == old(self)@.records[k],
            final(self)@ == after_retire(
                old(self)@,
                r,
                RetirementRecord {
                    credit_id,
                    buyer,
                    tonnes_retired: tonnes,
                    reason,
                    retired_at: final(self)@.records[r@].retired_at,
                },
            ),
    {
        let now = ledger_timestamp(env);
        self.record_retirement_at(env, buyer, credit_id, tonnes, reason, now)
    }

    /// Records the retirement by `buyer` of `tonnes` of the credit `credit_id`
    /// for `reason` at the ledger time `now`, indexes it under the buyer and
    /// publishes it; the registry has yet to mark the credit retired. Returns
    /// the record's identifier.
    pub fn record_retirement_at(
        &mut self,
        env: &soroban_sdk::Env,
        buyer: Address,
        credit_id: CreditId,
        tonnes: i128,
        reason: String,
        now: u64,
    ) -> (r: RetirementId)
        requires
            tonnes > 0,
        ensures
            r@ == retirement_id_of(credit_id@, reason@, now),
            forall|k: Seq<u8>| #[trigger] old(self)@.records.contains_key(k) && k != r@ ==> final(self)@.records.contains_key(k)
                && final(self)@.records[k] == old(self)@.records[k],
            final(self)@ == after_retire(
                old(self)@,
                r,
                RetirementRecord {
                    credit_id,
                    buyer,
                    tonnes_retired: tonnes,
                    reason,
                    retired_at: now,
                },
            ),
    {
        let mut preimage = bytes32_to_xdr(env, &credit_id);
        let mut reason_xdr = text_to_xdr(env, &reason);
        preimage.append(&mut reason_xdr);
        let mut time_xdr = u64_to_xdr(env, now);
        preimage.append(&mut time_xdr);
        assert(preimage@ =~= xdr_of_bytes32(credit_id@) + xdr_of_text(reason@) + xdr_of_u64(now));
        let retirement_id = sha256(env, &preimage);
        let record = RetirementRecord {
            credit_id,
            buyer: buyer.clone(),
            tonnes_retired: tonnes,
            reason,
            retired_at: now,
        };
        self.records.insert(retirement_id, record);
        let mut list = self.get_retirements_by_account(buyer.clone());
        list.push(retirement_id);
        self.account_retirements.insert(buyer.clone(), list);
        self.events.push(RetirementEvent::Retired { buyer, credit_id, retirement_id });
        proof {
            assert(self@.account_retirements =~= old(self)@.account_retirements.insert(
                buyer@,
                account_list(old(self)@, buyer@).push(retirement_id),
            ));
        }
        retirement_id
    }

    /// The record stored under `retirement_id`, if any.
    pub fn get_retirement(&self, retirement_id: RetirementId) -> (r: Option<RetirementRecord>)
        ensures
            r is Some == self@.records.contains_key(retirement_id@),
            r matches Some(rec) ==> rec == self@.records[retirement_id@],
    {
        match self.records.get(&retirement_id) {
            Some(rec) => Some(rec.clone()),
            None => None,
        }
    }

    /// The retirements of `account`, in the order they were made.
    pub fn get_retirements_by_account(&self, account: Address) -> (r: Vec<RetirementId>)
        ensures
            r@ == account_list(self@, account@),
    {
        match self.account_retirements.get(&account) {
            Some(list) => copy_ids(list),
            None => Vec::new(),
        }
    }
}

} // verus!
