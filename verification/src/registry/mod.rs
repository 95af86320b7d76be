//! The credit registry: an administrator registers verifiers; issuers submit
//! credits, which verifiers mint or flag, and the retirement contract retires.
//!
//! A request names the address that acts for it; that this address authorized
//! the request is for the Soroban host to check, and is not modelled here.
pub mod events;
pub mod storage;
pub mod types;

use vstd::prelude::*;

use crate::host::{be_u64, lemma_be_u64_injective, sha256, sha256_of, text_to_xdr, u64_to_xdr, xdr_of_text, xdr_of_u64, ledger_timestamp};
use crate::ids::{addresses_distinct, lemma_listed_after_push, lemma_push_keeps_distinct, listed, Address, AddressSet, CreditId};
use crate::table::{entries_map, inserted_all, keys_distinct, lemma_inserted_all_distinct, Table};
use self::types::{may_follow, CarbonChainError, CreditMetadata, CreditStatus, RegistryEvent, VerifierReputation};

verus! {

/// The largest amount a credit may carry: one billion tonnes, counted in kilograms.
pub const MAX_CREDIT_TONNES: i128 = 1_000_000_000_000_000;

/// The registry's state, as the contract stores it.
pub struct CreditRegistry {
    admin: Option<Address>,
    retirement_contract: Option<Address>,
    verifiers: AddressSet,
    credits: Table<CreditId, CreditMetadata>,
    project_credits: Table<String, Vec<CreditId>>,
    credit_nonce: u64,
    paused: bool,
    reputations: Table<String, VerifierReputation>,
    events: Vec<RegistryEvent>,
}

/// The registry's state seen as plain values.
pub struct RegistryModel {
    pub admin: Option<Address>,
    pub retirement_contract: Option<Address>,
    pub verifiers: Seq<Address>,
    pub credits: Map<Seq<u8>, CreditMetadata>,
    pub project_credits: Map<Seq<char>, Seq<CreditId>>,
    pub credit_nonce: u64,
    pub paused: bool,
    pub reputations: Map<Seq<char>, VerifierReputation>,
    pub events: Seq<RegistryEvent>,
}

impl View for CreditRegistry {
    type V = RegistryModel;

    closed spec fn view(&self) -> RegistryModel {
        RegistryModel {
            admin: self.admin,
            retirement_contract: self.retirement_contract,
            verifiers: self.verifiers.members(),
            credits: self.credits.as_map(),
            project_credits: self.project_credits.as_map().map_values(|v: Vec<CreditId>| v@),
            credit_nonce: self.credit_nonce,
            paused: self.paused,
            reputations: self.reputations.as_map(),
            events: self.events@,
        }
    }
}

/// The credits listed under `project` (none if the project has no list).
pub open spec fn project_list(m: RegistryModel, project: Seq<char>) -> Seq<CreditId> {
    if m.project_credits.contains_key(project) {
        m.project_credits[project]
    } else {
        Seq::empty()
    }
}

/// The reputation of `verifier`: no approvals and no disputes before its first.
pub open spec fn reputation_of(m: RegistryModel, verifier: Seq<char>) -> VerifierReputation {
    if m.reputations.contains_key(verifier) {
        m.reputations[verifier]
    } else {
        VerifierReputation { approval_count: 0, dispute_count: 0 }
    }
}

/// The registry after `verifier` approved one more credit.
pub open spec fn count_approval(m: RegistryModel, verifier: Seq<char>) -> RegistryModel {
    let rep = reputation_of(m, verifier);
    RegistryModel {
        reputations: m.reputations.insert(
            verifier,
            VerifierReputation { approval_count: (rep.approval_count + 1) as u64, ..rep },
        ),
        ..m
    }
}

/// The registry after `verifier` flagged one more credit.
pub open spec fn count_dispute(m: RegistryModel, verifier: Seq<char>) -> RegistryModel {
    let rep = reputation_of(m, verifier);
    RegistryModel {
        reputations: m.reputations.insert(
            verifier,
            VerifierReputation { dispute_count: (rep.dispute_count + 1) as u64, ..rep },
        ),
        ..m
    }
}

/// An approval adds one to the approvals of its verifier and a flag one to
/// its disputes; the other count, and every other verifier's reputation, stay.
pub proof fn lemma_reputation_counts(m: RegistryModel, verifier: Seq<char>, other: Seq<char>)
    ensures
        reputation_of(m, verifier).approval_count < u64::MAX ==> reputation_of(count_approval(m, verifier), verifier)
            == (VerifierReputation {
            approval_count: (reputation_of(m, verifier).approval_count + 1) as u64,
            dispute_count: reputation_of(m, verifier).dispute_count,
        }),
        reputation_of(m, verifier).dispute_count < u64::MAX ==> reputation_of(count_dispute(m, verifier), verifier)
            == (VerifierReputation {
            approval_count: reputation_of(m, verifier).approval_count,
            dispute_count: (reputation_of(m, verifier).dispute_count + 1) as u64,
        }),
        other != verifier ==> reputation_of(count_approval(m, verifier), other) == reputation_of(m, other),
        other != verifier ==> reputation_of(count_dispute(m, verifier), other) == reputation_of(m, other),
{
}

/// The identifier of the credit submitted for `project` with nonce `nonce`:
/// the SHA-256 digest of the XDR of the project id followed by the XDR of the nonce.
pub open spec fn credit_id_of(project: Seq<char>, nonce: u64) -> Seq<u8> {
    sha256_of(credit_preimage(project, nonce))
}

/// The bytes hashed into the identifier of the credit submitted for `project`
/// with nonce `nonce`.
pub open spec fn credit_preimage(project: Seq<char>, nonce: u64) -> Seq<u8> {
    xdr_of_text(project) + xdr_of_u64(nonce)
}

/// Credits submitted with different nonces hash different bytes, whatever
/// their projects: the preimage ends with the nonce's eight big-endian bytes.
pub proof fn lemma_distinct_nonces_distinct_preimages(p1: Seq<char>, n1: u64, p2: Seq<char>, n2: u64)
    requires
        n1 != n2,
    ensures
        credit_preimage(p1, n1) != credit_preimage(p2, n2),
{
    let a = credit_preimage(p1, n1);
    let b = credit_preimage(p2, n2);
    if a == b {
        let la = xdr_of_text(p1).len() as int;
        let lb = xdr_of_text(p2).len() as int;
        assert(xdr_of_u64(n1).len() == 12);
        assert(xdr_of_u64(n2).len() == 12);
        assert(a.len() == la + 12);
        assert(la == lb);
        assert(a.subrange(la + 4, la + 12) =~= be_u64(n1));
        assert(b.subrange(lb + 4, lb + 12) =~= be_u64(n2));
        lemma_be_u64_injective(n1, n2);
    }
}

/// Credits submitted with different nonces get different identifiers, unless
/// SHA-256 maps their two preimages to one digest.
pub proof fn lemma_distinct_nonces_distinct_ids(p1: Seq<char>, n1: u64, p2: Seq<char>, n2: u64)
    requires
        n1 != n2,
        sha256_of(credit_preimage(p1, n1)) == sha256_of(credit_preimage(p2, n2)) ==> credit_preimage(p1, n1)
            == credit_preimage(p2, n2),
    ensures
        credit_id_of(p1, n1) != credit_id_of(p2, n2),
{
    lemma_distinct_nonces_distinct_preimages(p1, n1, p2, n2);
}

/// Whether SHA-256 gives different digests for different credit preimages.
pub open spec fn credit_ids_collision_free() -> bool {
    forall|p1: Seq<char>, n1: u64, p2: Seq<char>, n2: u64|
        #[trigger] credit_id_of(p1, n1) == #[trigger] credit_id_of(p2, n2) ==> credit_preimage(p1, n1)
            == credit_preimage(p2, n2)
}

/// Whether every stored credit carries the identifier of a submission whose
/// nonce is below the counter, and every project lists stored credits, none twice.
pub open spec fn credits_issued(m: RegistryModel) -> bool {
    &&& forall|k: Seq<u8>| #[trigger]
        m.credits.contains_key(k) ==> exists|p: Seq<char>, n: u64| n < m.credit_nonce && k == credit_id_of(p, n)
    &&& forall|p: Seq<char>, i: int|
        #![trigger m.project_credits[p][i]]
        m.project_credits.contains_key(p) && 0 <= i < m.project_credits[p].len() ==> m.credits.contains_key(
            m.project_credits[p][i]@,
        )
    &&& forall|p: Seq<char>, i: int, j: int|
        #![trigger m.project_credits[p][i], m.project_credits[p][j]]
        m.project_credits.contains_key(p) && 0 <= i < j < m.project_credits[p].len() ==> m.project_credits[p][i]@
            != m.project_credits[p][j]@
}

/// A registry with no credits has issued them all.
pub proof fn lemma_no_credits_issued(m: RegistryModel)
    requires
        m.credits == Map::<Seq<u8>, CreditMetadata>::empty(),
        m.project_credits == Map::<Seq<char>, Seq<CreditId>>::empty(),
    ensures
        credits_issued(m),
{
}

/// A submission takes an identifier that no stored credit has, so it leaves
/// every earlier credit as it was, and every project still lists stored
/// credits, none twice; provided SHA-256 does not collide on credit preimages.
pub proof fn lemma_submit_takes_fresh_id(m: RegistryModel, id: CreditId, meta: CreditMetadata)
    requires
        credits_issued(m),
        credit_ids_collision_free(),
        m.credit_nonce < u64::MAX,
        id@ == credit_id_of(meta.project_id@, m.credit_nonce),
    ensures
        !m.credits.contains_key(id@),
        forall|k: Seq<u8>| #[trigger] m.credits.contains_key(k) ==> after_submit(m, id, meta).credits[k] == m.credits[k],
        credits_issued(after_submit(m, id, meta)),
{
    let a = after_submit(m, id, meta);
    let proj = meta.project_id@;
    let big_n = m.credit_nonce;
    if m.credits.contains_key(id@) {
        let (p, n) = choose|p: Seq<char>, n: u64| n < m.credit_nonce && id@ == credit_id_of(p, n);
        assert(credit_id_of(proj, big_n) == credit_id_of(p, n));
        lemma_distinct_nonces_distinct_preimages(proj, big_n, p, n);
    }
    assert forall|k: Seq<u8>| #[trigger]
        a.credits.contains_key(k) implies exists|p: Seq<char>, n: u64| n < a.credit_nonce && k == credit_id_of(p, n) by {
        if k == id@ {
            assert(big_n < a.credit_nonce && k == credit_id_of(proj, big_n));
        } else {
            let (p, n) = choose|p: Seq<char>, n: u64| n < m.credit_nonce && k == credit_id_of(p, n);
            assert(n < a.credit_nonce && k == credit_id_of(p, n));
        }
    }
    let old_list = project_list(m, proj);
    assert forall|p: Seq<char>, i: int|
        #![trigger a.project_credits[p][i]]
        a.project_credits.contains_key(p) && 0 <= i < a.project_credits[p].len() implies a.credits.contains_key(
            a.project_credits[p][i]@,
        ) by {
        if p == proj {
            if i < old_list.len() {
                assert(m.project_credits[p][i] == a.project_credits[p][i]);
            }
        } else {
            assert(m.project_credits[p][i] == a.project_credits[p][i]);
        }
    }
    assert forall|p: Seq<char>, i: int, j: int|
        #![trigger a.project_credits[p][i], a.project_credits[p][j]]
        a.project_credits.contains_key(p) && 0 <= i < j < a.project_credits[p].len() implies a.project_credits[p][i]@
            != a.project_credits[p][j]@ by {
        if p == proj {
            if j < old_list.len() {
                assert(m.project_credits[p][i] == a.project_credits[p][i]);
                assert(m.project_credits[p][j] == a.project_credits[p][j]);
            } else {
                assert(m.project_credits[p][i] == a.project_credits[p][i]);
                assert(m.credits.contains_key(m.project_credits[p][i]@));
            }
        } else {
            assert(m.project_credits[p][i] == a.project_credits[p][i]);
            assert(m.project_credits[p][j] == a.project_credits[p][j]);
        }
    }
}

/// A change that keeps which credits are stored, what each project lists and
/// does not lower the counter keeps every credit issued.
pub proof fn lemma_credits_stay_issued(before: RegistryModel, after: RegistryModel)
    requires
        credits_issued(before),
        after.credits.dom() == before.credits.dom(),
        after.project_credits == before.project_credits,
        before.credit_nonce <= after.credit_nonce,
    ensures
        credits_issued(after),
{
    assert forall|k: Seq<u8>| #[trigger]
        after.credits.contains_key(k) implies exists|p: Seq<char>, n: u64| n < after.credit_nonce && k == credit_id_of(p, n) by {
        assert(before.credits.dom().contains(k));
        let (p, n) = choose|p: Seq<char>, n: u64| n < before.credit_nonce && k == credit_id_of(p, n);
        assert(n < after.credit_nonce && k == credit_id_of(p, n));
    }
    assert forall|p: Seq<char>, i: int|
        #![trigger after.project_credits[p][i]]
        after.project_credits.contains_key(p) && 0 <= i < after.project_credits[p].len() implies after.credits.contains_key(
            after.project_credits[p][i]@,
        ) by {
        assert(before.credits.contains_key(before.project_credits[p][i]@));
        assert(before.credits.dom().contains(before.project_credits[p][i]@));
    }
}

/// Every credit of `before` is still in `after`, with the same fields but the
/// status, and its status moved as [`may_follow`] allows.
pub open spec fn credits_evolve(before: Map<Seq<u8>, CreditMetadata>, after: Map<Seq<u8>, CreditMetadata>) -> bool {
    forall|k: Seq<u8>| #[trigger] before.contains_key(k) ==> {
        &&& after.contains_key(k)
        &&& after[k] == before[k].with_status(after[k].status)
        &&& may_follow(before[k].status, after[k].status)
    }
}

/// The registry after a credit `meta` was recorded under `id`.
pub open spec fn after_submit(m: RegistryModel, id: CreditId, meta: CreditMetadata) -> RegistryModel {
    RegistryModel {
        credit_nonce: (m.credit_nonce + 1) as u64,
        credits: m.credits.insert(id@, meta),
        project_credits: m.project_credits.insert(meta.project_id@, project_list(m, meta.project_id@).push(id)),
        events: m.events.push(
            RegistryEvent::CreditSubmitted { issuer: meta.issuer, project_id: meta.project_id, tonnes: meta.tonnes },
        ),
        ..m
    }
}

/// The answer to a verifier's request, if it is refused:
/// the caller is not a verifier, or the credit is unknown, or `allowed` refuses
/// its status.
pub open spec fn verifier_check(m: RegistryModel, verifier: Seq<char>, id: Seq<u8>, allowed: bool) -> Option<CarbonChainError> {
    if !listed(m.verifiers, verifier) {
        Some(CarbonChainError::Unauthorized)
    } else if !m.credits.contains_key(id) {
        Some(CarbonChainError::CreditNotFound)
    } else if !allowed {
        Some(CarbonChainError::InvalidStatusTransition)
    } else {
        None
    }
}

/// The answer to an administrator's request by `admin`, before its own checks.
pub open spec fn admin_check(m: RegistryModel, admin: Seq<char>) -> Option<CarbonChainError> {
    match m.admin {
        None => Some(CarbonChainError::NotInitialized),
        Some(a) => if a@ != admin { Some(CarbonChainError::Unauthorized) } else { None },
    }
}

/// The answer of `mark_retired` for the credit `id`, before it changes anything.
pub open spec fn retire_check(m: RegistryModel, id: Seq<u8>) -> Option<CarbonChainError> {
    if m.retirement_contract is None {
        Some(CarbonChainError::NotInitialized)
    } else if !m.credits.contains_key(id) {
        Some(CarbonChainError::CreditNotFound)
    } else if m.credits[id].status != CreditStatus::Active {
        Some(CarbonChainError::InvalidStatusTransition)
    } else {
        None
    }
}

/// Whether `a` and `b` record the same credit: every field but the status agrees.
pub open spec fn same_terms(a: CreditMetadata, b: CreditMetadata) -> bool {
    &&& a.project_id == b.project_id
    &&& a.issuer == b.issuer
    &&& a.vintage_year == b.vintage_year
    &&& a.methodology == b.methodology
    &&& a.geography == b.geography
    &&& a.tonnes == b.tonnes
    &&& a.ipfs_hash == b.ipfs_hash
    &&& a.issued_at == b.issued_at
}

/// A change of status touches the status of that one credit only: the credit
/// keeps its project, issuer, vintage, methodology, geography, tonnes, IPFS
/// hash and issue time, and every other stored credit stays as it was.
pub proof fn lemma_status_change_keeps_terms(m: RegistryModel, id: Seq<u8>, status: CreditStatus, k: Seq<u8>)
    requires
        m.credits.contains_key(id),
    ensures
        with_credit_status(m, id, status).credits.dom() == m.credits.dom(),
        with_credit_status(m, id, status).credits[id].status == status,
        with_credit_status(m, id, status).credits[id].project_id == m.credits[id].project_id,
        with_credit_status(m, id, status).credits[id].issuer == m.credits[id].issuer,
        with_credit_status(m, id, status).credits[id].vintage_year == m.credits[id].vintage_year,
        with_credit_status(m, id, status).credits[id].methodology == m.credits[id].methodology,
        with_credit_status(m, id, status).credits[id].geography == m.credits[id].geography,
        with_credit_status(m, id, status).credits[id].tonnes == m.credits[id].tonnes,
        with_credit_status(m, id, status).credits[id].ipfs_hash == m.credits[id].ipfs_hash,
        with_credit_status(m, id, status).credits[id].issued_at == m.credits[id].issued_at,
        k != id && m.credits.contains_key(k) ==> with_credit_status(m, id, status).credits[k] == m.credits[k],
        with_credit_status(m, id, status).project_credits == m.project_credits,
        with_credit_status(m, id, status).verifiers == m.verifiers,
{
    assert(with_credit_status(m, id, status).credits.dom() =~= m.credits.dom());
}

/// The registry after the credit `id` took the status `status`.
pub open spec fn with_credit_status(m: RegistryModel, id: Seq<u8>, status: CreditStatus) -> RegistryModel {
    RegistryModel { credits: m.credits.insert(id, m.credits[id].with_status(status)), ..m }
}

/// Whether the credit `id` is known and has the status `status`.
pub open spec fn has_status(m: RegistryModel, id: Seq<u8>, status: CreditStatus) -> bool {
    m.credits.contains_key(id) && m.credits[id].status == status
}

/// A submission adds to its own project's list only: every other project
/// lists the same credits as before, every other stored credit is kept as it
/// was, and the verifiers, administrator and reputations do not change.
pub proof fn lemma_submit_touches_one_project(m: RegistryModel, id: CreditId, meta: CreditMetadata, other: Seq<char>, k: Seq<u8>)
    ensures
        other != meta.project_id@ ==> project_list(after_submit(m, id, meta), other) == project_list(m, other),
        project_list(after_submit(m, id, meta), meta.project_id@) == project_list(m, meta.project_id@).push(id),
        m.credits.contains_key(k) && k != id@ ==> after_submit(m, id, meta).credits.contains_key(k)
            && after_submit(m, id, meta).credits[k] == m.credits[k],
        after_submit(m, id, meta).credits.dom() == m.credits.dom().insert(id@),
        after_submit(m, id, meta).verifiers == m.verifiers,
        after_submit(m, id, meta).admin == m.admin,
        after_submit(m, id, meta).reputations == m.reputations,
        m.credit_nonce < u64::MAX ==> after_submit(m, id, meta).credit_nonce == m.credit_nonce + 1,
{
}

/// A submitted credit can be read back under its identifier, as submitted,
/// and is the last credit listed under its project.
pub proof fn lemma_submitted_credit_readable(m: RegistryModel, id: CreditId, meta: CreditMetadata)
    ensures
        after_submit(m, id, meta).credits.contains_key(id@),
        after_submit(m, id, meta).credits[id@] == meta,
        project_list(after_submit(m, id, meta), meta.project_id@) == project_list(m, meta.project_id@).push(id),
{
}

/// A status does not change and a retired credit never leaves that status.
pub proof fn lemma_retired_is_final(after: CreditStatus)
    ensures
        may_follow(CreditStatus::Retired, after) ==> after == CreditStatus::Retired,
{
}

/// The registry's stored values, as they move in and out of contract storage.
pub struct RegistryParts {
    pub admin: Option<Address>,
    pub retirement_contract: Option<Address>,
    pub verifiers: Vec<Address>,
    pub credits: Vec<(CreditId, CreditMetadata)>,
    pub project_credits: Vec<(String, Vec<CreditId>)>,
    pub credit_nonce: u64,
    pub paused: bool,
    pub reputations: Vec<(String, VerifierReputation)>,
}

/// What a registry loaded from the stored values `p` holds: of two entries with
/// the same key the later one, and no events.
pub open spec fn loaded_registry(p: RegistryParts) -> RegistryModel {
    RegistryModel {
        admin: p.admin,
        retirement_contract: p.retirement_contract,
        verifiers: p.verifiers@,
        credits: inserted_all(Map::empty(), p.credits@),
        project_credits: inserted_all(Map::empty(), p.project_credits@).map_values(|v: Vec<CreditId>| v@),
        credit_nonce: p.credit_nonce,
        paused: p.paused,
        reputations: inserted_all(Map::empty(), p.reputations@),
        events: Seq::empty(),
    }
}

/// Whether `p` holds the stored values of `m`, each key once.
pub open spec fn stores_registry(p: RegistryParts, m: RegistryModel) -> bool {
    &&& p.admin == m.admin
    &&& p.retirement_contract == m.retirement_contract
    &&& p.verifiers@ == m.verifiers
    &&& keys_distinct(p.credits@)
    &&& entries_map(p.credits@) == m.credits
    &&& keys_distinct(p.project_credits@)
    &&& entries_map(p.project_credits@).map_values(|v: Vec<CreditId>| v@) == m.project_credits
    &&& p.credit_nonce == m.credit_nonce
    &&& p.paused == m.paused
    &&& keys_distinct(p.reputations@)
    &&& entries_map(p.reputations@) == m.reputations
}

/// Loading what was stored gives back the registry, but for its events.
pub proof fn lemma_registry_reloads(p: RegistryParts, m: RegistryModel)
    requires
        stores_registry(p, m),
    ensures
        loaded_registry(p) == (RegistryModel { events: Seq::empty(), ..m }),
{
    lemma_inserted_all_distinct(p.credits@);
    lemma_inserted_all_distinct(p.project_credits@);
    lemma_inserted_all_distinct(p.reputations@);
    assert(loaded_registry(p).project_credits =~= m.project_credits);
}

impl CreditRegistry {
    /// A registry holding the stored values `parts`, with no events yet. Of two
    /// entries with the same key the later one holds.
    pub fn from_parts(parts: RegistryParts) -> (r: Self)
        requires
            addresses_distinct(parts.verifiers@),
        ensures
            r@ == loaded_registry(parts),
    {
        CreditRegistry {
            admin: parts.admin,
            retirement_contract: parts.retirement_contract,
            verifiers: AddressSet::from_vec(parts.verifiers),
            credits: Table::from_entries(parts.credits),
            project_credits: Table::from_entries(parts.project_credits),
            credit_nonce: parts.credit_nonce,
            paused: parts.paused,
            reputations: Table::from_entries(parts.reputations),
            events: Vec::new(),
        }
    }

    /// The registry's stored values, each key once.
    pub fn into_parts(self) -> (p: RegistryParts)
        ensures
            stores_registry(p, self@),
    {
        RegistryParts {
            admin: self.admin,
            retirement_contract: self.retirement_contract,
            verifiers: self.verifiers.into_vec(),
            credits: self.credits.into_entries(),
            project_credits: self.project_credits.into_entries(),
            credit_nonce: self.credit_nonce,
            paused: self.paused,
            reputations: self.reputations.into_entries(),
        }
    }

    /// The events published so far, oldest first.
    pub fn events(&self) -> (r: &Vec<RegistryEvent>)
        ensures
            r@ == self@.events,
    {
        &self.events
    }

    /// A registry that holds nothing yet.
    pub fn new() -> (r: Self)
        ensures
            r@.admin is None,
            r@.retirement_contract is None,
            r@.verifiers == Seq::<Address>::empty(),
            r@.credits == Map::<Seq<u8>, CreditMetadata>::empty(),
            r@.project_credits == Map::<Seq<char>, Seq<CreditId>>::empty(),
            r@.credit_nonce == 0,
            !r@.paused,
            r@.reputations == Map::<Seq<char>, VerifierReputation>::empty(),
            r@.events == Seq::<RegistryEvent>::empty(),
            credits_issued(r@),
    {
        let r = CreditRegistry {
            admin: None,
            retirement_contract: None,
            verifiers: AddressSet::new(),
            credits: Table::new(),
            project_credits: Table::new(),
            credit_nonce: 0,
            paused: false,
            reputations: Table::new(),
            events: Vec::new(),
        };
        assert(r@.project_credits =~= Map::<Seq<char>, Seq<CreditId>>::empty());
        r
    }

    /// Sets the administrator and the retirement contract, once.
    pub fn initialize(&mut self, admin: Address, retirement_contract: Address) -> (r: Result<(), CarbonChainError>)
        ensures
            old(self)@.admin is Some ==> r == Err::<(), CarbonChainError>(CarbonChainError::AlreadyInitialized)
                && final(self)@ == old(self)@,
            old(self)@.admin is None ==> r is Ok && final(self)@ == (RegistryModel {
                admin: Some(admin),
                retirement_contract: Some(retirement_contract),
                ..old(self)@
            }),
            credits_issued(old(self)@) ==> credits_issued(final(self)@),
    {
        if storage::has_admin(self) {
            return Err(CarbonChainError::AlreadyInitialized);
        }
        storage::set_admin(self, &admin);
        storage::set_retirement_contract(self, &retirement_contract);
        Ok(())
    }

    /// Checks that `admin` is the registry's administrator.
    fn check_admin(&self, admin: &Address) -> (r: Result<(), CarbonChainError>)
        ensures
            match admin_check(self@, admin@) {
                Some(e) => r == Err::<(), CarbonChainError>(e),
                None => r is Ok,
            },
    {
        match storage::get_admin(self) {
            None => Err(CarbonChainError::NotInitialized),
            Some(stored) => if *admin != stored {
                Err(CarbonChainError::Unauthorized)
            } else {
                Ok(())
            },
        }
    }

    /// The administrator `admin` adds `verifier` to the verifiers.
    pub fn register_verifier(&mut self, admin: Address, verifier: Address) -> (r: Result<(), CarbonChainError>)
        ensures
            admin_check(old(self)@, admin@) matches Some(e) ==> r == Err::<(), CarbonChainError>(e),
            admin_check(old(self)@, admin@) is None && listed(old(self)@.verifiers, verifier@) ==> r
                == Err::<(), CarbonChainError>(CarbonChainError::VerifierAlreadyExists),
            admin_check(old(self)@, admin@) is None && !listed(old(self)@.verifiers, verifier@) ==> r is Ok,
            r is Err ==> final(self)@ == old(self)@,
            r is Ok ==> admin_check(old(self)@, admin@) is None && !listed(old(self)@.verifiers, verifier@)
                && final(self)@ == (RegistryModel {
                verifiers: old(self)@.verifiers.push(verifier),
                events: old(self)@.events.push(RegistryEvent::VerifierAdded { admin, verifier }),
                ..old(self)@
            }),
            addresses_distinct(final(self)@.verifiers),
            forall|x: Seq<char>| #[trigger] listed(final(self)@.verifiers, x) <==> (listed(old(self)@.verifiers, x) || (
            r is Ok && x == verifier@)),
            credits_issued(old(self)@) ==> credits_issued(final(self)@),
    {
        proof {
            use_type_invariant(&self.verifiers);
            self.verifiers.lemma_members_distinct();
        }
        self.check_admin(&admin)?;
        if storage::is_verifier(self, &verifier) {
            return Err(CarbonChainError::VerifierAlreadyExists);
        }
        let mut verifiers = storage::get_verifiers(self);
        proof {
            lemma_push_keeps_distinct(verifiers@, verifier);
        }
        verifiers.push(verifier.clone());
        proof {
            assert forall|x: Seq<char>| #[trigger] listed(verifiers@, x) <==> (listed(old(self)@.verifiers, x) || x
                == verifier@) by {
                lemma_listed_after_push(old(self)@.verifiers, verifier, x);
            }
        }
        storage::set_verifiers(self, verifiers);
        events::verifier_added(self, admin, verifier);
        Ok(())
    }

    /// The administrator `admin` removes `verifier` from the verifiers.
    pub fn remove_verifier(&mut self, admin: Address, verifier: Address) -> (r: Result<(), CarbonChainError>)
        ensures
            admin_check(old(self)@, admin@) matches Some(e) ==> r == Err::<(), CarbonChainError>(e),
            admin_check(old(self)@, admin@) is None && !listed(old(self)@.verifiers, verifier@) ==> r
                == Err::<(), CarbonChainError>(CarbonChainError::VerifierNotFound),
            admin_check(old(self)@, admin@) is None && listed(old(self)@.verifiers, verifier@) ==> r is Ok,
            r is Err ==> final(self)@ == old(self)@,
            r is Ok ==> admin_check(old(self)@, admin@) is None && listed(old(self)@.verifiers, verifier@)
                && final(self)@ == (RegistryModel {
                verifiers: old(self)@.verifiers.filter(|v: Address| v@ != verifier@),
                events: old(self)@.events.push(RegistryEvent::VerifierRemoved { admin, verifier }),
                ..old(self)@
            }),
            addresses_distinct(final(self)@.verifiers),
            r is Ok ==> !listed(final(self)@.verifiers, verifier@),
            forall|x: Seq<char>| x != verifier@ ==> (listed(final(self)@.verifiers, x) <==> listed(old(self)@.verifiers, x)),
            credits_issued(old(self)@) ==> credits_issued(final(self)@),
    {
        proof {
            use_type_invariant(&self.verifiers);
            self.verifiers.lemma_members_distinct();
        }
        self.check_admin(&admin)?;
        if !storage::is_verifier(self, &verifier) {
            return Err(CarbonChainError::VerifierNotFound);
        }
        let old_list = storage::get_verifiers(self);
        let ghost pred = |v: Address| v@ != verifier@;
        let mut new_list: Vec<Address> = Vec::new();
        let mut i: usize = 0;
        while i < old_list.len()
            invariant
                i <= old_list.len(),
                new_list@ == old_list@.take(i as int).filter(pred),
                pred == (|v: Address| v@ != verifier@),
                forall|k: int| 0 <= k < new_list.len() ==> #[trigger] new_list@[k]@ != verifier@,
                forall|k: int|
                    0 <= k < new_list.len() ==> exists|j: int| 0 <= j < i && old_list@[j]@ == #[trigger] new_list@[k]@,
                addresses_distinct(old_list@) ==> addresses_distinct(new_list@),
                forall|j: int| 0 <= j < i && old_list@[j]@ != verifier@ ==> listed(new_list@, #[trigger] old_list@[j]@),
            decreases old_list.len() - i,
        {
            proof {
                reveal_with_fuel(Seq::<_>::filter, 1);
                assert(old_list@.take(i + 1).drop_last() =~= old_list@.take(i as int));
            }
            if old_list[i] != verifier {
                proof {
                    if addresses_distinct(old_list@) {
                        if listed(new_list@, old_list@[i as int]@) {
                            let k = choose|k: int| 0 <= k < new_list.len() && #[trigger] new_list@[k]@ == old_list@[i as int]@;
                            let j = choose|j: int| 0 <= j < i && old_list@[j]@ == #[trigger] new_list@[k]@;
                            assert(old_list@[j]@ == old_list@[i as int]@);
                        }
                        lemma_push_keeps_distinct(new_list@, old_list@[i as int]);
                    }
                }
                let ghost prev = new_list@;
                new_list.push(old_list[i].clone());
                proof {
                    assert forall|j: int| 0 <= j < i + 1 && old_list@[j]@ != verifier@ implies listed(
                        new_list@,
                        #[trigger] old_list@[j]@,
                    ) by {
                        lemma_listed_after_push(prev, old_list@[i as int], old_list@[j]@);
                    }
                    assert forall|k: int|
                        0 <= k < new_list.len() implies exists|j: int| 0 <= j < i + 1 && old_list@[j]@ == #[trigger] new_list@[k]@ by {
                        if k == new_list.len() - 1 {
                            assert(old_list@[i as int]@ == new_list@[k]@);
                        } else {
                            let j = choose|j: int| 0 <= j < i && old_list@[j]@ == #[trigger] new_list@[k]@;
                            assert(old_list@[j]@ == new_list@[k]@);
                        }
                    }
                }
            }
            i = i + 1;
        }
        assert(old_list@.take(old_list.len() as int) =~= old_list@);
        proof {
            assert forall|k: int| 0 <= k < new_list.len() implies #[trigger] new_list@[k]@ != verifier@ by {}
            assert forall|x: Seq<char>| x != verifier@ implies (listed(new_list@, x) <==> listed(old_list@, x)) by {
                if listed(old_list@, x) {
                    let j = choose|j: int| 0 <= j < old_list.len() && #[trigger] old_list@[j]@ == x;
                    assert(listed(new_list@, old_list@[j]@));
                }
                if listed(new_list@, x) {
                    let k = choose|k: int| 0 <= k < new_list.len() && #[trigger] new_list@[k]@ == x;
                    let j = choose|j: int| 0 <= j < old_list.len() && old_list@[j]@ == #[trigger] new_list@[k]@;
                    assert(old_list@[j]@ == x);
                }
            }
        }
        storage::set_verifiers(self, new_list);
        events::verifier_removed(self, admin, verifier);
        Ok(())
    }

    /// How many credits were submitted so far: the nonce of the next credit.
    pub fn credit_nonce(&self) -> (r: u64)
        ensures
            r == self@.credit_nonce,
    {
        self.credit_nonce
    }

    /// All verifiers, in the order they were registered.
    pub fn list_verifiers(&self) -> (r: Vec<Address>)
        ensures
            r@ == self@.verifiers,
            addresses_distinct(r@),
    {
        storage::get_verifiers(self)
    }

    /// The issuer `issuer` submits a credit of `tonnes` for `project_id`. It is
    /// recorded as pending under an identifier derived from the project id and a
    /// counter that every submission advances, and listed under the project.
    pub fn submit_credit(
        &mut self,
        env: &soroban_sdk::Env,
        issuer: Address,
        project_id: String,
        vintage_year: u32,
        methodology: String,
        geography: String,
        tonnes: i128,
        ipfs_hash: String,
    ) -> (r: Result<CreditId, CarbonChainError>)
        requires
            old(self)@.admin is Some && 0 < tonnes <= MAX_CREDIT_TONNES ==> old(self)@.credit_nonce < u64::MAX,
        ensures
            old(self)@.admin is None ==> r == Err::<CreditId, CarbonChainError>(CarbonChainError::NotInitialized),
            old(self)@.admin is Some && !(0 < tonnes <= MAX_CREDIT_TONNES) ==> r == Err::<CreditId, CarbonChainError>(
                CarbonChainError::InvalidTonnes,
            ),
            old(self)@.admin is Some && 0 < tonnes <= MAX_CREDIT_TONNES ==> r is Ok,
            r is Err ==> final(self)@ == old(self)@,
            r matches Ok(id) ==> {
                &&& id@ == credit_id_of(project_id@, old(self)@.credit_nonce)
                &&& final(self)@ == after_submit(
                    old(self)@,
                    id,
                    CreditMetadata {
                        project_id,
                        issuer,
                        vintage_year,
                        methodology,
                        geography,
                        tonnes,
                        ipfs_hash,
                        status: CreditStatus::Pending,
                        issued_at: final(self)@.credits[id@].issued_at,
                    },
                )
                &&& forall|q: Seq<char>| q != project_id@ ==> #[trigger] project_list(final(self)@, q) == project_list(
                    old(self)@,
                    q,
                )
                &&& forall|k: Seq<u8>| #[trigger] old(self)@.credits.contains_key(k) && k != id@ ==> final(self)@.credits.contains_key(k)
                    && final(self)@.credits[k] == old(self)@.credits[k]
            },
            credits_issued(old(self)@) && credit_ids_collision_free() ==> credits_issued(final(self)@),
            r matches Ok(id) ==> (credits_issued(old(self)@) && credit_ids_collision_free()
                ==> !old(self)@.credits.contains_key(id@)),
    {
        let now = ledger_timestamp(env);
        self.submit_credit_at(env, issuer, project_id, vintage_year, methodology, geography, tonnes, ipfs_hash, now)
    }

    /// The issuer `issuer` submits a credit of `tonnes` for `project_id`. It is
    /// recorded as pending under an identifier derived from the project id and a
    /// counter that every submission advances, issued at the ledger time `now`,
    /// and listed under the project.
    pub fn submit_credit_at(
        &mut self,
        env: &soroban_sdk::Env,
        issuer: Address,
        project_id: String,
        vintage_year: u32,
        methodology: String,
        geography: String,
        tonnes: i128,
        ipfs_hash: String,
        now: u64,
    ) -> (r: Result<CreditId, CarbonChainError>)
        requires
            old(self)@.admin is Some && 0 < tonnes <= MAX_CREDIT_TONNES ==> old(self)@.credit_nonce < u64::MAX,
        ensures
            old(self)@.admin is None ==> r == Err::<CreditId, CarbonChainError>(CarbonChainError::NotInitialized),
            old(self)@.admin is Some && !(0 < tonnes <= MAX_CREDIT_TONNES) ==> r == Err::<CreditId, CarbonChainError>(
                CarbonChainError::InvalidTonnes,
            ),
            old(self)@.admin is Some && 0 < tonnes <= MAX_CREDIT_TONNES ==> r is Ok,
            r is Err ==> final(self)@ == old(self)@,
            r matches Ok(id) ==> {
                &&& id@ == credit_id_of(project_id@, old(self)@.credit_nonce)
                &&& final(self)@ == after_submit(
                    old(self)@,
                    id,
                    CreditMetadata {
                        project_id,
                        issuer,
                        vintage_year,
                        methodology,
                        geography,
                        tonnes,
                        ipfs_hash,
                        status: CreditStatus::Pending,
                        issued_at: now,
                    },
                )
                &&& forall|q: Seq<char>| q != project_id@ ==> #[trigger] project_list(final(self)@, q) == project_list(
                    old(self)@,
                    q,
                )
                &&& forall|k: Seq<u8>| #[trigger] old(self)@.credits.contains_key(k) && k != id@ ==> final(self)@.credits.contains_key(k)
                    && final(self)@.credits[k] == old(self)@.credits[k]
            },
            credits_issued(old(self)@) && credit_ids_collision_free() ==> credits_issued(final(self)@),
            r matches Ok(id) ==> (credits_issued(old(self)@) && credit_ids_collision_free()
                ==> !old(self)@.credits.contains_key(id@)),
    {
        if !storage::has_admin(self) {
            return Err(CarbonChainError::NotInitialized);
        }
        if tonnes <= 0 {
            return Err(CarbonChainError::InvalidTonnes);
        }
        if tonnes > MAX_CREDIT_TONNES {
            return Err(CarbonChainError::InvalidTonnes);
        }
        let nonce = self.credit_nonce;
        self.credit_nonce = nonce + 1;
        let mut preimage = text_to_xdr(env, &project_id);
        let mut nonce_xdr = u64_to_xdr(env, nonce);
        preimage.append(&mut nonce_xdr);
        let id = sha256(env, &preimage);
        let metadata = CreditMetadata {
            project_id: project_id.clone(),
            issuer: issuer.clone(),
            vintage_year,
            methodology,
            geography,
            tonnes,
            ipfs_hash,
            status: CreditStatus::Pending,
            issued_at: now,
        };
        let ghost metadata_spec = metadata;
        storage::set_credit(self, &id, metadata);
        storage::add_credit_to_project(self, &project_id, &id);
        events::credit_submitted(self, issuer, project_id, tonnes);
        proof {
            if credits_issued(old(self)@) && credit_ids_collision_free() {
                lemma_submit_takes_fresh_id(old(self)@, id, metadata_spec);
            }
        }
        Ok(id)
    }

    /// The verifier `verifier` approves the pending credit `credit_id`, which
    /// becomes active.
    pub fn approve_and_mint(&mut self, verifier: Address, credit_id: CreditId) -> (r: Result<(), CarbonChainError>)
        requires
            verifier_check(old(self)@, verifier@, credit_id@, has_status(old(self)@, credit_id@, CreditStatus::Pending))
                is None ==> reputation_of(old(self)@, verifier@).approval_count < u64::MAX,
        ensures
            match verifier_check(old(self)@, verifier@, credit_id@, has_status(old(self)@, credit_id@, CreditStatus::Pending)) {
                Some(e) => r == Err::<(), CarbonChainError>(e) && final(self)@ == old(self)@,
                None => r is Ok && final(self)@ == (RegistryModel {
                    events: old(self)@.events.push(RegistryEvent::CreditMinted { verifier, id: credit_id }),
                    ..count_approval(with_credit_status(old(self)@, credit_id@, CreditStatus::Active), verifier@)
                }),
            },
            credits_evolve(old(self)@.credits, final(self)@.credits),
            forall|k: Seq<u8>| #[trigger] old(self)@.credits.contains_key(k) ==> final(self)@.credits.contains_key(k)
                && same_terms(old(self)@.credits[k], final(self)@.credits[k]),
            credits_issued(old(self)@) ==> credits_issued(final(self)@),
    {
        if !storage::is_verifier(self, &verifier) {
            return Err(CarbonChainError::Unauthorized);
        }
        let credit = match storage::get_credit(self, &credit_id) {
            Some(c) => c,
            None => return Err(CarbonChainError::CreditNotFound),
        };
        if credit.status != CreditStatus::Pending {
            return Err(CarbonChainError::InvalidStatusTransition);
        }
        let updated = credit.copy_with_status(CreditStatus::Active);
        storage::set_credit(self, &credit_id, updated);
        let rep = storage::get_verifier_reputation(self, &verifier);
        storage::set_verifier_reputation(
            self,
            &verifier,
            VerifierReputation { approval_count: rep.approval_count + 1, ..rep },
        );
        events::credit_minted(self, verifier, credit_id);
        proof {
            if credits_issued(old(self)@) {
                assert(self@.credits.dom() =~= old(self)@.credits.dom());
                lemma_credits_stay_issued(old(self)@, self@);
            }
        }
        Ok(())
    }

    /// The verifier `verifier` flags the credit `credit_id` for `reason`; any
    /// credit that is not retired can be flagged.
    pub fn flag_credit(&mut self, verifier: Address, credit_id: CreditId, reason: String) -> (r: Result<
        (),
        CarbonChainError,
    >)
        requires
            verifier_check(
                old(self)@,
                verifier@,
                credit_id@,
                !has_status(old(self)@, credit_id@, CreditStatus::Retired),
            ) is None ==> reputation_of(old(self)@, verifier@).dispute_count < u64::MAX,
        ensures
            match verifier_check(
                old(self)@,
                verifier@,
                credit_id@,
                !has_status(old(self)@, credit_id@, CreditStatus::Retired),
            ) {
                Some(e) => r == Err::<(), CarbonChainError>(e) && final(self)@ == old(self)@,
                None => r is Ok && final(self)@ == (RegistryModel {
                    events: old(self)@.events.push(RegistryEvent::CreditFlagged { id: credit_id, reason }),
                    ..count_dispute(with_credit_status(old(self)@, credit_id@, CreditStatus::Flagged), verifier@)
                }),
            },
            credits_evolve(old(self)@.credits, final(self)@.credits),
            forall|k: Seq<u8>| #[trigger] old(self)@.credits.contains_key(k) ==> final(self)@.credits.contains_key(k)
                && same_terms(old(self)@.credits[k], final(self)@.credits[k]),
            credits_issued(old(self)@) ==> credits_issued(final(self)@),
    {
        if !storage::is_verifier(self, &verifier) {
            return Err(CarbonChainError::Unauthorized);
        }
        let credit = match storage::get_credit(self, &credit_id) {
            Some(c) => c,
            None => return Err(CarbonChainError::CreditNotFound),
        };
        if credit.status == CreditStatus::Retired {
            return Err(CarbonChainError::InvalidStatusTransition);
        }
        let updated = credit.copy_with_status(CreditStatus::Flagged);
        storage::set_credit(self, &credit_id, updated);
        let rep = storage::get_verifier_reputation(self, &verifier);
        storage::set_verifier_reputation(
            self,
            &verifier,
            VerifierReputation { dispute_count: rep.dispute_count + 1, ..rep },
        );
        events::credit_flagged(self, credit_id, reason);
        proof {
            if credits_issued(old(self)@) {
                assert(self@.credits.dom() =~= old(self)@.credits.dom());
                lemma_credits_stay_issued(old(self)@, self@);
            }
        }
        Ok(())
    }

    /// The retirement contract retires the active credit `credit_id`.
    pub fn mark_retired(&mut self, credit_id: CreditId) -> (r: Result<(), CarbonChainError>)
        ensures
            match retire_check(old(self)@, credit_id@) {
                Some(e) => r == Err::<(), CarbonChainError>(e) && final(self)@ == old(self)@,
                None => r is Ok && final(self)@ == with_credit_status(old(self)@, credit_id@, CreditStatus::Retired),
            },
            credits_evolve(old(self)@.credits, final(self)@.credits),
            forall|k: Seq<u8>| #[trigger] old(self)@.credits.contains_key(k) ==> final(self)@.credits.contains_key(k)
                && same_terms(old(self)@.credits[k], final(self)@.credits[k]),
            credits_issued(old(self)@) ==> credits_issued(final(self)@),
    {
        if storage::get_retirement_contract(self).is_none() {
            return Err(CarbonChainError::NotInitialized);
        }
        let credit = match storage::get_credit(self, &credit_id) {
            Some(c) => c,
            None => return Err(CarbonChainError::CreditNotFound),
        };
        if credit.status != CreditStatus::Active {
            return Err(CarbonChainError::InvalidStatusTransition);
        }
        let updated = credit.copy_with_status(CreditStatus::Retired);
        storage::set_credit(self, &credit_id, updated);
        proof {
            if credits_issued(old(self)@) {
                assert(self@.credits.dom() =~= old(self)@.credits.dom());
                lemma_credits_stay_issued(old(self)@, self@);
            }
        }
        Ok(())
    }

    /// The credit `credit_id`.
    pub fn get_credit(&self, credit_id: CreditId) -> (r: Result<CreditMetadata, CarbonChainError>)
        ensures
            self@.credits.contains_key(credit_id@) ==> r == Ok::<CreditMetadata, CarbonChainError>(
                self@.credits[credit_id@],
            ),
            !self@.credits.contains_key(credit_id@) ==> r == Err::<CreditMetadata, CarbonChainError>(
                CarbonChainError::CreditNotFound,
            ),
    {
        match storage::get_credit(self, &credit_id) {
            Some(c) => Ok(c),
            None => Err(CarbonChainError::CreditNotFound),
        }
    }

    /// How often `verifier` approved and flagged credits.
    pub fn get_verifier_reputation(&self, verifier: Address) -> (r: VerifierReputation)
        ensures
            r == reputation_of(self@, verifier@),
    {
        storage::get_verifier_reputation(self, &verifier)
    }

    /// The credits submitted for `project_id`, in the order of submission.
    pub fn list_credits_by_project(&self, project_id: String) -> (r: Vec<CreditId>)
        ensures
            r@ == project_list(self@, project_id@),
    {
        storage::get_credits_by_project(self, &project_id)
    }
}

} // verus!
