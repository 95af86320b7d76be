//! The marketplace: sellers list active credits for sale and may cancel the
//! listing; an administrator may pause it.
//!
//! A request names the address that acts for it; that this address authorized
//! the request is for the Soroban host to check, and is not modelled here.

use vstd::prelude::*;

use crate::host::ledger_timestamp;
use crate::ids::{Address, CreditId};
use crate::registry::types::CreditStatus;
use crate::registry::CreditRegistry;
use crate::table::{entries_map, inserted_all, keys_distinct, lemma_inserted_all_distinct, Table};

verus! {

/// A credit listed for sale.
#[derive(Debug, PartialEq, Eq)]
pub struct Offer {
    pub seller: Address,
    pub credit_id: CreditId,
    /// The price, in stroops.
    pub price_xlm: i128,
    pub tonnes: i128,
    pub active: bool,
    pub created_at: u64,
}

impl Offer {
    /// The same offer with `active` replaced.
    pub open spec fn with_active(self, active: bool) -> Offer {
        Offer { active, ..self }
    }

    /// A copy of this offer with `active` replaced.
    pub fn copy_with_active(&self, active: bool) -> (r: Offer)
        ensures
            r == self.with_active(active),
    {
        Offer {
            seller: self.seller.clone(),
            credit_id: self.credit_id,
            price_xlm: self.price_xlm,
            tonnes: self.tonnes,
            active,
            created_at: self.created_at,
        }
    }
}

impl Clone for Offer {
    fn clone(&self) -> (r: Self)
        ensures
            r == *self,
    {
        self.copy_with_active(self.active)
    }
}

/// An event that the marketplace publishes.
#[derive(Debug, PartialEq, Eq)]
pub enum MarketplaceEvent {
    Paused { admin: Address },
    Unpaused { admin: Address },
    OfferCreated { seller: Address, offer_id: u64 },
    OfferCancelled { seller: Address, offer_id: u64 },
}

/// Why a marketplace request was refused.
#[derive(Clone, Copy, Debug, PartialEq, Eq, Structural)]
pub enum MarketplaceError {
    OfferNotFound,
    Unauthorized,
    InvalidPrice,
    AlreadyClosed,
    CreditNotActive,
    NotInitialized,
    ContractPaused,
}

/// The marketplace's state, as the contract stores it. An offer's identifier is
/// its place among the offers.
pub struct Marketplace {
    admin: Option<Address>,
    paused: bool,
    offers: Vec<Offer>,
    seller_offers: Table<String, Vec<u64>>,
    events: Vec<MarketplaceEvent>,
}

/// The marketplace's state seen as plain values.
pub struct MarketModel {
    pub admin: Option<Address>,
    pub paused: bool,
    pub offers: Seq<Offer>,
    pub seller_offers: Map<Seq<char>, Seq<u64>>,
    pub events: Seq<MarketplaceEvent>,
}

impl View for Marketplace {
    type V = MarketModel;

    closed spec fn view(&self) -> MarketModel {
        MarketModel {
            admin: self.admin,
            paused: self.paused,
            offers: self.offers@,
            seller_offers: self.seller_offers.as_map().map_values(|v: Vec<u64>| v@),
            events: self.events@,
        }
    }
}

/// The offers listed under `seller` (none if the seller has no list).
pub open spec fn seller_list(m: MarketModel, seller: Seq<char>) -> Seq<u64> {
    if m.seller_offers.contains_key(seller) {
        m.seller_offers[seller]
    } else {
        Seq::empty()
    }
}

/// Whether `id` names an offer that is still open.
pub open spec fn is_open(m: MarketModel, id: u64) -> bool {
    id < m.offers.len() && m.offers[id as int].active
}

/// Every identifier listed under a seller names an offer of that seller.
pub open spec fn index_consistent(m: MarketModel) -> bool {
    forall|s: Seq<char>, i: int|
        #![trigger m.seller_offers[s][i]]
        m.seller_offers.contains_key(s) && 0 <= i < m.seller_offers[s].len() ==> {
            &&& m.seller_offers[s][i] < m.offers.len()
            &&& m.offers[m.seller_offers[s][i] as int].seller@ == s
        }
}

/// The answer to an administrator's request by `admin`, before its own checks.
pub open spec fn admin_check(m: MarketModel, admin: Seq<char>) -> Option<MarketplaceError> {
    match m.admin {
        None => Some(MarketplaceError::NotInitialized),
        Some(a) => if a@ != admin { Some(MarketplaceError::Unauthorized) } else { None },
    }
}

/// The answer of `create_offer` to a listing at `price_xlm` for `tonnes`, before
/// it asks the registry about the credit.
pub open spec fn offer_request_check(m: MarketModel, price_xlm: i128, tonnes: i128) -> Option<MarketplaceError> {
    if m.paused {
        Some(MarketplaceError::ContractPaused)
    } else if price_xlm <= 0 || tonnes <= 0 {
        Some(MarketplaceError::InvalidPrice)
    } else {
        None
    }
}

/// The answer of `cancel_offer` by `seller` for the offer `id`, before it changes anything.
pub open spec fn cancel_check(m: MarketModel, seller: Seq<char>, id: u64) -> Option<MarketplaceError> {
    if m.paused {
        Some(MarketplaceError::ContractPaused)
    } else if id >= m.offers.len() {
        Some(MarketplaceError::OfferNotFound)
    } else if m.offers[id as int].seller@ != seller {
        Some(MarketplaceError::Unauthorized)
    } else if !m.offers[id as int].active {
        Some(MarketplaceError::AlreadyClosed)
    } else {
        None
    }
}

/// The marketplace after `offer` was listed.
pub open spec fn after_create(m: MarketModel, offer: Offer) -> MarketModel {
    let id = m.offers.len() as u64;
    MarketModel {
        offers: m.offers.push(offer),
        seller_offers: m.seller_offers.insert(offer.seller@, seller_list(m, offer.seller@).push(id)),
        events: m.events.push(MarketplaceEvent::OfferCreated { seller: offer.seller, offer_id: id }),
        ..m
    }
}

/// Listing an offer appends it: every earlier offer is kept unchanged under
/// its identifier, the new one comes last, and only its seller's list grows.
pub proof fn lemma_create_appends(m: MarketModel, offer: Offer, other: Seq<char>)
    ensures
        after_create(m, offer).offers.len() == m.offers.len() + 1,
        forall|i: int| 0 <= i < m.offers.len() ==> #[trigger] after_create(m, offer).offers[i] == m.offers[i],
        after_create(m, offer).offers[m.offers.len() as int] == offer,
        other != offer.seller@ ==> seller_list(after_create(m, offer), other) == seller_list(m, other),
        seller_list(after_create(m, offer), offer.seller@) == seller_list(m, offer.seller@).push(m.offers.len() as u64),
        after_create(m, offer).admin == m.admin,
        after_create(m, offer).paused == m.paused,
{
}

/// Closing or reopening an offer changes its `active` flag and nothing else.
pub proof fn lemma_with_active_keeps_terms(o: Offer, active: bool)
    ensures
        o.with_active(active).active == active,
        o.with_active(active).seller == o.seller,
        o.with_active(active).credit_id == o.credit_id,
        o.with_active(active).price_xlm == o.price_xlm,
        o.with_active(active).tonnes == o.tonnes,
        o.with_active(active).created_at == o.created_at,
{
}

/// The marketplace's stored values, as they move in and out of contract storage.
pub struct MarketParts {
    pub admin: Option<Address>,
    pub paused: bool,
    pub offers: Vec<Offer>,
    pub seller_offers: Vec<(String, Vec<u64>)>,
}

/// A listed offer can be read back under the identifier it was given, is
/// open, and is the last of its seller's offers.
pub proof fn lemma_created_offer_readable(m: MarketModel, offer: Offer)
    requires
        offer.active,
        m.offers.len() < u64::MAX,
    ensures
        after_create(m, offer).offers[m.offers.len() as int] == offer,
        is_open(after_create(m, offer), m.offers.len() as u64),
        seller_list(after_create(m, offer), offer.seller@) == seller_list(m, offer.seller@).push(m.offers.len() as u64),
{
}

/// While the marketplace is paused, listing and cancelling are refused with
/// `ContractPaused`.
pub proof fn lemma_paused_refuses_trading(m: MarketModel, price_xlm: i128, tonnes: i128, seller: Seq<char>, id: u64)
    requires
        m.paused,
    ensures
        offer_request_check(m, price_xlm, tonnes) == Some(MarketplaceError::ContractPaused),
        cancel_check(m, seller, id) == Some(MarketplaceError::ContractPaused),
{
}

/// What a marketplace loaded from the stored values `p` holds: of two entries
/// with the same key the later one, and no events.
pub open spec fn loaded_market(p: MarketParts) -> MarketModel {
    MarketModel {
        admin: p.admin,
        paused: p.paused,
        offers: p.offers@,
        seller_offers: inserted_all(Map::empty(), p.seller_offers@).map_values(|v: Vec<u64>| v@),
        events: Seq::empty(),
    }
}

/// Whether `p` holds the stored values of `m`, each key once.
pub open spec fn stores_market(p: MarketParts, m: MarketModel) -> bool {
    &&& p.admin == m.admin
    &&& p.paused == m.paused
    &&& p.offers@ == m.offers
    &&& keys_distinct(p.seller_offers@)
    &&& entries_map(p.seller_offers@).map_values(|v: Vec<u64>| v@) == m.seller_offers
}

/// Loading what was stored gives back the marketplace, but for its events.
pub proof fn lemma_market_reloads(p: MarketParts, m: MarketModel)
    requires
        stores_market(p, m),
    ensures
        loaded_market(p) == (MarketModel { events: Seq::empty(), ..m }),
{
    lemma_inserted_all_distinct(p.seller_offers@);
    assert(loaded_market(p).seller_offers =~= m.seller_offers);
}

impl Marketplace {
    /// A marketplace holding the stored values `parts`, with no events yet. Of
    /// two entries with the same key the later one holds.
    pub fn from_parts(parts: MarketParts) -> (r: Self)
        ensures
            r@ == loaded_market(parts),
    {
        Marketplace {
            admin: parts.admin,
            paused: parts.paused,
            offers: parts.offers,
            seller_offers: Table::from_entries(parts.seller_offers),
            events: Vec::new(),
        }
    }

    /// The marketplace's stored values, each key once.
    pub fn into_parts(self) -> (p: MarketParts)
        ensures
            stores_market(p, self@),
    {
        MarketParts {
            admin: self.admin,
            paused: self.paused,
            offers: self.offers,
            seller_offers: self.seller_offers.into_entries(),
        }
    }

    /// The events published so far, oldest first.
    pub fn events(&self) -> (r: &Vec<MarketplaceEvent>)
        ensures
            r@ == self@.events,
    {
        &self.events
    }

    /// A marketplace that holds nothing yet.
    pub fn new() -> (r: Self)
        ensures
            r@.admin is None,
            !r@.paused,
            r@.offers == Seq::<Offer>::empty(),
            r@.seller_offers == Map::<Seq<char>, Seq<u64>>::empty(),
            r@.events == Seq::<MarketplaceEvent>::empty(),
            index_consistent(r@),
    {
        let r = Marketplace {
            admin: None,
            paused: false,
            offers: Vec::new(),
            seller_offers: Table::new(),
            events: Vec::new(),
        };
        assert(r@.seller_offers =~= Map::<Seq<char>, Seq<u64>>::empty());
        r
    }

    /// Sets the administrator, once. A second call is refused with
    /// `NotInitialized`.
    pub fn initialize(&mut self, admin: Address) -> (r: Result<(), MarketplaceError>)
        ensures
            old(self)@.admin is Some ==> r == Err::<(), MarketplaceError>(MarketplaceError::NotInitialized)
                && final(self)@ == old(self)@,
            old(self)@.admin is None ==> r is Ok && final(self)@ == (MarketModel { admin: Some(admin), ..old(self)@ }),
    {
        if self.admin.is_some() {
            return Err(MarketplaceError::NotInitialized);
        }
        self.admin = Some(admin);
        Ok(())
    }

    /// Checks that `caller` is the administrator.
    fn require_admin(&self, caller: &Address) -> (r: Result<(), MarketplaceError>)
        ensures
            match admin_check(self@, caller@) {
                Some(e) => r == Err::<(), MarketplaceError>(e),
                None => r is Ok,
            },
    {
        match &self.admin {
            None => Err(MarketplaceError::NotInitialized),
            Some(a) => if *caller != *a {
                Err(MarketplaceError::Unauthorized)
            } else {
                Ok(())
            },
        }
    }

    /// The administrator `admin` pauses the marketplace.
    pub fn pause(&mut self, admin: Address) -> (r: Result<(), MarketplaceError>)
        ensures
            match admin_check(old(self)@, admin@) {
                Some(e) => r == Err::<(), MarketplaceError>(e) && final(self)@ == old(self)@,
                None => r is Ok && final(self)@ == (MarketModel {
                    paused: true,
                    events: old(self)@.events.push(MarketplaceEvent::Paused { admin }),
                    ..old(self)@
                }),
            },
    {
        self.require_admin(&admin)?;
        self.paused = true;
        self.events.push(MarketplaceEvent::Paused { admin });
        Ok(())
    }

    /// The administrator `admin` resumes the marketplace.
    pub fn unpause(&mut self, admin: Address) -> (r: Result<(), MarketplaceError>)
        ensures
            match admin_check(old(self)@, admin@) {
                Some(e) => r == Err::<(), MarketplaceError>(e) && final(self)@ == old(self)@,
                None => r is Ok && final(self)@ == (MarketModel {
                    paused: false,
                    events: old(self)@.events.push(MarketplaceEvent::Unpaused { admin }),
                    ..old(self)@
                }),
            },
    {
        self.require_admin(&admin)?;
        self.paused = false;
        self.events.push(MarketplaceEvent::Unpaused { admin });
        Ok(())
    }

    /// Whether an administrator was set. From then on an administrator's
    /// request needs the caller's authorization before it is checked.
    pub fn has_admin(&self) -> (r: bool)
        ensures
            r == self@.admin is Some,
    {
        self.admin.is_some()
    }

    /// Whether the marketplace is paused.
    pub fn paused(&self) -> (r: bool)
        ensures
            r == self@.paused,
    {
        self.is_paused()
    }

    fn is_paused(&self) -> (r: bool)
        ensures
            r == self@.paused,
    {
        self.paused
    }

    /// Takes the next offer identifier: the number of offers so far.
    fn next_id(&self) -> (r: u64)
        ensures
            r == self@.offers.len(),
    {
        self.offers.len() as u64
    }

    /// The answer to a listing at `price_xlm` for `tonnes` when it is refused
    /// before the registry is asked about the credit.
    pub fn offer_request_refusal(&self, price_xlm: i128, tonnes: i128) -> (r: Option<MarketplaceError>)
        ensures
            r == offer_request_check(self@, price_xlm, tonnes),
    {
        if self.is_paused() {
            return Some(MarketplaceError::ContractPaused);
        }
        if price_xlm <= 0 || tonnes <= 0 {
            return Some(MarketplaceError::InvalidPrice);
        }
        None
    }

    /// The seller `seller` lists the credit `credit_id` for `tonnes` at
    /// `price_xlm`. The credit must be active in `registry`. Returns the new
    /// offer's identifier.
    pub fn create_offer(
        &mut self,
        env: &soroban_sdk::Env,
        seller: Address,
        credit_id: CreditId,
        price_xlm: i128,
        tonnes: i128,
        registry: &CreditRegistry,
    ) -> (r: Result<u64, MarketplaceError>)
        requires
            offer_request_check(old(self)@, price_xlm, tonnes) is None ==> registry@.credits.contains_key(credit_id@),
            old(self)@.offers.len() < u64::MAX,
        ensures
            offer_request_check(old(self)@, price_xlm, tonnes) matches Some(e) ==> r == Err::<u64, MarketplaceError>(e),
            offer_request_check(old(self)@, price_xlm, tonnes) is None ==> if registry@.credits[credit_id@].status
                == CreditStatus::Active {
                r == Ok::<u64, MarketplaceError>(old(self)@.offers.len() as u64)
            } else {
                r == Err::<u64, MarketplaceError>(MarketplaceError::CreditNotActive)
            },
            r is Err ==> final(self)@ == old(self)@,
            r is Ok ==> final(self)@.offers.len() == old(self)@.offers.len() + 1,
            r is Ok ==> forall|i: int| 0 <= i < old(self)@.offers.len() ==> #[trigger] final(self)@.offers[i]
                == old(self)@.offers[i],
            r is Ok ==> final(self)@ == after_create(
                old(self)@,
                Offer {
                    seller,
                    credit_id,
                    price_xlm,
                    tonnes,
                    active: true,
                    created_at: final(self)@.offers.last().created_at,
                },
            ),
            index_consistent(old(self)@) ==> index_consistent(final(self)@),
    {
        if let Some(e) = self.offer_request_refusal(price_xlm, tonnes) {
            return Err(e);
        }
        let status = match registry.get_credit(credit_id) {
            Ok(credit) => credit.status,
            Err(_) => {
                // Not reached: the registry holds the credit.
                proof {
                    assert(false);
                }
                return Err(MarketplaceError::CreditNotActive);
            },
        };
        self.list_credit(env, seller, credit_id, price_xlm, tonnes, status)
    }

    /// The seller `seller` lists the credit `credit_id` for `tonnes` at
    /// `price_xlm`, the registry having answered that the credit has the status
    /// `credit_status`. Returns the new offer's identifier.
    pub fn list_credit(
        &mut self,
        env: &soroban_sdk::Env,
        seller: Address,
        credit_id: CreditId,
        price_xlm: i128,
        tonnes: i128,
        credit_status: CreditStatus,
    ) -> (r: Result<u64, MarketplaceError>)
        requires
            old(self)@.offers.len() < u64::MAX,
        ensures
            offer_request_check(old(self)@, price_xlm, tonnes) matches Some(e) ==> r == Err::<u64, MarketplaceError>(e),
            offer_request_check(old(self)@, price_xlm, tonnes) is None ==> if credit_status == CreditStatus::Active {
                r == Ok::<u64, MarketplaceError>(old(self)@.offers.len() as u64)
            } else {
                r == Err::<u64, MarketplaceError>(MarketplaceError::CreditNotActive)
            },
            r is Err ==> final(self)@ == old(self)@,
            r is Ok ==> final(self)@.offers.len() == old(self)@.offers.len() + 1,
            r is Ok ==> forall|i: int| 0 <= i < old(self)@.offers.len() ==> #[trigger] final(self)@.offers[i]
                == old(self)@.offers[i],
            r is Ok ==> final(self)@ == after_create(
                old(self)@,
                Offer {
                    seller,
                    credit_id,
                    price_xlm,
                    tonnes,
                    active: true,
                    created_at: final(self)@.offers.last().created_at,
                },
            ),
            index_consistent(old(self)@) ==> index_consistent(final(self)@),
    {
        let now = ledger_timestamp(env);
        self.list_credit_at(seller, credit_id, price_xlm, tonnes, credit_status, now)
    }

    /// The seller `seller` lists the credit `credit_id` for `tonnes` at
    /// `price_xlm`, the registry having answered that the credit has the status
    /// `credit_status`, at the ledger time `now`. Returns the new offer's
    /// identifier.
    pub fn list_credit_at(
        &mut self,
        seller: Address,
        credit_id: CreditId,
        price_xlm: i128,
        tonnes: i128,
        credit_status: CreditStatus,
        now: u64,
    ) -> (r: Result<u64, MarketplaceError>)
        requires
            old(self)@.offers.len() < u64::MAX,
        ensures
            offer_request_check(old(self)@, price_xlm, tonnes) matches Some(e) ==> r == Err::<u64, MarketplaceError>(e),
            offer_request_check(old(self)@, price_xlm, tonnes) is None ==> if credit_status == CreditStatus::Active {
                r == Ok::<u64, MarketplaceError>(old(self)@.offers.len() as u64)
            } else {
                r == Err::<u64, MarketplaceError>(MarketplaceError::CreditNotActive)
            },
            r is Err ==> final(self)@ == old(self)@,
            r is Ok ==> final(self)@.offers.len() == old(self)@.offers.len() + 1,
            r is Ok ==> forall|i: int| 0 <= i < old(self)@.offers.len() ==> #[trigger] final(self)@.offers[i]
                == old(self)@.offers[i],
            r is Ok ==> final(self)@ == after_create(
                old(self)@,
                Offer {
                    seller,
                    credit_id,
                    price_xlm,
                    tonnes,
                    active: true,
                    created_at: now,
                },
            ),
            index_consistent(old(self)@) ==> index_consistent(final(self)@),
    {
        if let Some(e) = self.offer_request_refusal(price_xlm, tonnes) {
            return Err(e);
        }
        if credit_status != CreditStatus::Active {
            return Err(MarketplaceError::CreditNotActive);
        }
        let offer_id = self.next_id();
        let ghost before = self@;
        let offer = Offer {
            seller: seller.clone(),
            credit_id,
            price_xlm,
            tonnes,
            active: true,
            created_at: now,
        };
        self.offers.push(offer);
        let mut ids = self.get_offers_by_seller(seller.clone());
        ids.push(offer_id);
        self.seller_offers.insert(seller.clone(), ids);
        self.events.push(MarketplaceEvent::OfferCreated { seller, offer_id });
        proof {
            let m = self@;
            assert(m.seller_offers =~= before.seller_offers.insert(
                seller@,
                seller_list(before, seller@).push(offer_id),
            ));
            if index_consistent(before) {
                assert forall|s: Seq<char>, i: int|
                    #![trigger m.seller_offers[s][i]]
                    m.seller_offers.contains_key(s) && 0 <= i < m.seller_offers[s].len() implies {
                        &&& m.seller_offers[s][i] < m.offers.len()
                        &&& m.offers[m.seller_offers[s][i] as int].seller@ == s
                    } by {
                    if s != seller@ || i < seller_list(before, seller@).len() {
                        assert(before.seller_offers[s][i] == m.seller_offers[s][i]);
                    }
                }
            }
        }
        Ok(offer_id)
    }

    /// The seller `seller` cancels the open offer `offer_id`. An event is
    /// published only when the offer is cancelled.
    pub fn cancel_offer(&mut self, seller: Address, offer_id: u64) -> (r: Result<(), MarketplaceError>)
        ensures
            match cancel_check(old(self)@, seller@, offer_id) {
                Some(e) => r == Err::<(), MarketplaceError>(e) && final(self)@ == old(self)@,
                None => r is Ok && final(self)@ == (MarketModel {
                    offers: old(self)@.offers.update(
                        offer_id as int,
                        old(self)@.offers[offer_id as int].with_active(false),
                    ),
                    events: old(self)@.events.push(MarketplaceEvent::OfferCancelled { seller, offer_id }),
                    ..old(self)@
                }),
            },
            forall|i: int| 0 <= i < old(self)@.offers.len() && i != offer_id ==> #[trigger] final(self)@.offers[i]
                == old(self)@.offers[i],
            final(self)@.offers.len() == old(self)@.offers.len(),
            r is Ok ==> {
                let before = old(self)@.offers[offer_id as int];
                let after = final(self)@.offers[offer_id as int];
                &&& before.active && !after.active
                &&& after.seller == before.seller && after.credit_id == before.credit_id
                &&& after.price_xlm == before.price_xlm && after.tonnes == before.tonnes
                &&& after.created_at == before.created_at
            },
            index_consistent(old(self)@) ==> index_consistent(final(self)@),
    {
        if self.is_paused() {
            return Err(MarketplaceError::ContractPaused);
        }
        if offer_id >= self.offers.len() as u64 {
            return Err(MarketplaceError::OfferNotFound);
        }
        let slot = offer_id as usize;
        let offer = self.offers[slot].clone();
        if offer.seller != seller {
            return Err(MarketplaceError::Unauthorized);
        }
        if !offer.active {
            return Err(MarketplaceError::AlreadyClosed);
        }
        let closed = offer.copy_with_active(false);
        self.offers.set(slot, closed);
        self.events.push(MarketplaceEvent::OfferCancelled { seller, offer_id });
        proof {
            let m = self@;
            assert(m.seller_offers == old(self)@.seller_offers);
            if index_consistent(old(self)@) {
                assert forall|s: Seq<char>, i: int|
                    #![trigger m.seller_offers[s][i]]
                    m.seller_offers.contains_key(s) && 0 <= i < m.seller_offers[s].len() implies {
                        &&& m.seller_offers[s][i] < m.offers.len()
                        &&& m.offers[m.seller_offers[s][i] as int].seller@ == s
                    } by {
                    let j = m.seller_offers[s][i];
                    assert(old(self)@.seller_offers[s][i] == j);
                    if j == offer_id {
                        assert(m.offers[j as int] == old(self)@.offers[j as int].with_active(false));
                    } else {
                        assert(m.offers[j as int] == old(self)@.offers[j as int]);
                    }
                }
            }
        }
        Ok(())
    }

    /// The offer `offer_id`.
    pub fn get_offer(&self, offer_id: u64) -> (r: Result<Offer, MarketplaceError>)
        ensures
            offer_id < self@.offers.len() ==> r == Ok::<Offer, MarketplaceError>(self@.offers[offer_id as int]),
            offer_id >= self@.offers.len() ==> r == Err::<Offer, MarketplaceError>(MarketplaceError::OfferNotFound),
    {
        if offer_id < self.offers.len() as u64 {
            Ok(self.offers[offer_id as usize].clone())
        } else {
            Err(MarketplaceError::OfferNotFound)
        }
    }

    /// All offers of `seller`, cancelled ones included, in the order they were made.
    pub fn get_offers_by_seller(&self, seller: Address) -> (r: Vec<u64>)
        ensures
            r@ == seller_list(self@, seller@),
    {
        match self.seller_offers.get(&seller) {
            Some(ids) => {
                let mut out: Vec<u64> = Vec::new();
                let mut i: usize = 0;
                while i < ids.len()
                    invariant
                        i <= ids.len(),
                        out@ == ids@.take(i as int),
                    decreases ids.len() - i,
                {
                    out.push(ids[i]);
                    assert(ids@.take(i + 1) =~= ids@.take(i as int).push(ids@[i as int]));
                    i = i + 1;
                }
                assert(ids@.take(ids.len() as int) =~= ids@);
                out
            },
            None => Vec::new(),
        }
    }

    /// The offers of `seller` that are still open, in the order they were made.
    pub fn get_active_offers_by_seller(&self, seller: Address) -> (r: Vec<u64>)
        ensures
            r@ == seller_list(self@, seller@).filter(|id: u64| is_open(self@, id)),
    {
        let all_ids = self.get_offers_by_seller(seller);
        let ghost pred = |id: u64| is_open(self@, id);
        let mut active: Vec<u64> = Vec::new();
        let mut i: usize = 0;
        while i < all_ids.len()
            invariant
                i <= all_ids.len(),
                active@ == all_ids@.take(i as int).filter(pred),
                pred == (|id: u64| is_open(self@, id)),
            decreases all_ids.len() - i,
        {
            proof {
                reveal_with_fuel(Seq::<_>::filter, 1);
                assert(all_ids@.take(i + 1).drop_last() =~= all_ids@.take(i as int));
            }
            let id = all_ids[i];
            if id < self.offers.len() as u64 {
                if self.offers[id as usize].active {
                    active.push(id);
                }
            }
            i = i + 1;
        }
        assert(all_ids@.take(all_ids.len() as int) =~= all_ids@);
        active
    }

    /// The number of offers made so far.
    pub fn offer_count(&self) -> (r: u64)
        ensures
            r == self@.offers.len(),
    {
        self.next_id()
    }
}

} // verus!
