use carbonchain::marketplace::{Marketplace, MarketplaceError, MarketplaceEvent};
use carbonchain::registry::CreditRegistry;
use soroban_sdk::testutils::EnvTestConfig;
use soroban_sdk::Env;

fn test_env() -> Env {
    Env::new_with_config(EnvTestConfig { capture_snapshot_at_drop: false })
}

fn addr(s: &str) -> String {
    s.to_string()
}

/// A registry holding one active credit, and an initialized marketplace.
/// Returns the marketplace, a seller, the marketplace's administrator, the
/// registry and the credit.
fn setup_with_registry(env: &Env) -> (Marketplace, String, String, CreditRegistry, [u8; 32]) {
    let mut registry = CreditRegistry::new();
    let admin = addr("GADMIN");
    let verifier = addr("GVERIFIER");
    let issuer = addr("GISSUER");
    let retirement = addr("CRETIREMENT");
    registry.initialize(admin.clone(), retirement).unwrap();
    registry.register_verifier(admin, verifier.clone()).unwrap();
    let credit_id = registry
        .submit_credit(
            env,
            issuer,
            "PROJ-001".to_string(),
            2024,
            "VCS".to_string(),
            "NG".to_string(),
            1_000_000,
            "bafybei123".to_string(),
        )
        .unwrap();
    registry.approve_and_mint(verifier, credit_id).unwrap();

    let mut market = Marketplace::new();
    let mp_admin = addr("GMPADMIN");
    market.initialize(mp_admin.clone()).unwrap();
    let seller = addr("GSELLER");
    (market, seller, mp_admin, registry, credit_id)
}

#[test]
fn test_create_offer() {
    let env = test_env();
    let (mut client, seller, _admin, registry, credit_id) = setup_with_registry(&env);
    let offer_id = client.create_offer(&env, seller, credit_id, 10_000_000, 500_000, &registry).unwrap();
    assert_eq!(offer_id, 0);
    let offer = client.get_offer(offer_id).unwrap();
    assert!(offer.active);
    assert_eq!(offer.price_xlm, 10_000_000);
}

#[test]
fn test_cancel_offer() {
    let env = test_env();
    let (mut client, seller, _admin, registry, credit_id) = setup_with_registry(&env);
    let offer_id = client.create_offer(&env, seller.clone(), credit_id, 10_000_000, 500_000, &registry).unwrap();
    client.cancel_offer(seller, offer_id).unwrap();
    assert!(!client.get_offer(offer_id).unwrap().active);
}

#[test]
fn test_cancel_already_closed_fails() {
    let env = test_env();
    let (mut client, seller, _admin, registry, credit_id) = setup_with_registry(&env);
    let offer_id = client.create_offer(&env, seller.clone(), credit_id, 10_000_000, 500_000, &registry).unwrap();
    client.cancel_offer(seller.clone(), offer_id).unwrap();
    assert!(client.cancel_offer(seller, offer_id).is_err());
}

#[test]
fn test_invalid_price_fails() {
    let env = test_env();
    let (mut client, seller, _admin, registry, credit_id) = setup_with_registry(&env);
    assert!(client.create_offer(&env, seller, credit_id, 0, 500_000, &registry).is_err());
}

#[test]
fn test_get_offers_by_seller() {
    let env = test_env();
    let (mut client, seller, _admin, registry, credit_id) = setup_with_registry(&env);
    client.create_offer(&env, seller.clone(), credit_id, 10_000_000, 500_000, &registry).unwrap();
    client.create_offer(&env, seller.clone(), credit_id, 20_000_000, 250_000, &registry).unwrap();
    assert_eq!(client.get_offers_by_seller(seller).len(), 2);
}

#[test]
fn test_offer_count() {
    let env = test_env();
    let (mut client, seller, _admin, registry, credit_id) = setup_with_registry(&env);
    client.create_offer(&env, seller.clone(), credit_id, 10_000_000, 500_000, &registry).unwrap();
    client.create_offer(&env, seller, credit_id, 20_000_000, 250_000, &registry).unwrap();
    assert_eq!(client.offer_count(), 2);
}

#[test]
fn test_unauthorized_cancel_fails() {
    let env = test_env();
    let (mut client, seller, _admin, registry, credit_id) = setup_with_registry(&env);
    let offer_id = client.create_offer(&env, seller, credit_id, 10_000_000, 500_000, &registry).unwrap();
    let other = addr("GOTHER");
    assert!(client.cancel_offer(other, offer_id).is_err());
}

// ── get_active_offers_by_seller tests ────────────────────────────────────────

#[test]
fn test_get_active_offers_by_seller_filters_cancelled() {
    let env = test_env();
    let (mut client, seller, _admin, registry, credit_id) = setup_with_registry(&env);
    let id0 = client.create_offer(&env, seller.clone(), credit_id, 10_000_000, 500_000, &registry).unwrap();
    let id1 = client.create_offer(&env, seller.clone(), credit_id, 20_000_000, 250_000, &registry).unwrap();
    // Cancel the first offer.
    client.cancel_offer(seller.clone(), id0).unwrap();
    // get_offers_by_seller still returns both.
    assert_eq!(client.get_offers_by_seller(seller.clone()).len(), 2);
    // get_active_offers_by_seller must return only the open one.
    let active = client.get_active_offers_by_seller(seller);
    assert_eq!(active.len(), 1);
    assert_eq!(active[0], id1);
}

#[test]
fn test_get_active_offers_by_seller_empty_when_all_cancelled() {
    let env = test_env();
    let (mut client, seller, _admin, registry, credit_id) = setup_with_registry(&env);
    let id0 = client.create_offer(&env, seller.clone(), credit_id, 10_000_000, 500_000, &registry).unwrap();
    client.cancel_offer(seller.clone(), id0).unwrap();
    assert_eq!(client.get_active_offers_by_seller(seller).len(), 0);
}

// ── Pause tests ──────────────────────────────────────────────────────────────

#[test]
fn test_pause_blocks_create_offer() {
    let env = test_env();
    let (mut client, seller, admin, registry, credit_id) = setup_with_registry(&env);
    client.pause(admin).unwrap();
    assert!(client.paused());
    assert!(client.create_offer(&env, seller, credit_id, 10_000_000, 500_000, &registry).is_err());
}

#[test]
fn test_unpause_restores_create_offer() {
    let env = test_env();
    let (mut client, seller, admin, registry, credit_id) = setup_with_registry(&env);
    client.pause(admin.clone()).unwrap();
    client.unpause(admin).unwrap();
    assert!(!client.paused());
    assert!(client.create_offer(&env, seller, credit_id, 10_000_000, 500_000, &registry).is_ok());
}

#[test]
fn test_pause_blocks_cancel_offer() {
    let env = test_env();
    let (mut client, seller, admin, registry, credit_id) = setup_with_registry(&env);
    let offer_id = client.create_offer(&env, seller.clone(), credit_id, 10_000_000, 500_000, &registry).unwrap();
    client.pause(admin).unwrap();
    assert!(client.cancel_offer(seller, offer_id).is_err());
}

#[test]
fn test_non_admin_cannot_pause() {
    let env = test_env();
    let (mut client, _, _, _, _) = setup_with_registry(&env);
    let rando = addr("GRANDO");
    assert!(client.pause(rando).is_err());
}

// ── Further cases ────────────────────────────────────────────────────────────

#[test]
fn offer_ids_count_up_from_zero() {
    let env = test_env();
    let (mut client, seller, _admin, registry, credit_id) = setup_with_registry(&env);
    for expected in 0..4u64 {
        let id = client.create_offer(&env, seller.clone(), credit_id, 1, 1, &registry).unwrap();
        assert_eq!(id, expected);
    }
    assert_eq!(client.offer_count(), 4);
    assert_eq!(client.get_offers_by_seller(seller), vec![0, 1, 2, 3]);
}

#[test]
fn each_refusal_has_its_error() {
    let env = test_env();
    let (mut client, seller, admin, mut registry, credit_id) = setup_with_registry(&env);
    assert_eq!(client.create_offer(&env, seller.clone(), credit_id, 1, 0, &registry), Err(MarketplaceError::InvalidPrice));
    assert_eq!(client.create_offer(&env, seller.clone(), credit_id, -5, 1, &registry), Err(MarketplaceError::InvalidPrice));
    assert_eq!(client.get_offer(9).unwrap_err(), MarketplaceError::OfferNotFound);
    assert_eq!(client.cancel_offer(seller.clone(), 9), Err(MarketplaceError::OfferNotFound));
    let id = client.create_offer(&env, seller.clone(), credit_id, 1, 1, &registry).unwrap();
    assert_eq!(client.cancel_offer(addr("GOTHER"), id), Err(MarketplaceError::Unauthorized));
    client.cancel_offer(seller.clone(), id).unwrap();
    assert_eq!(client.cancel_offer(seller.clone(), id), Err(MarketplaceError::AlreadyClosed));
    client.pause(admin.clone()).unwrap();
    assert_eq!(client.cancel_offer(seller.clone(), id), Err(MarketplaceError::ContractPaused));
    client.unpause(admin.clone()).unwrap();
    registry.mark_retired(credit_id).unwrap();
    assert_eq!(client.create_offer(&env, seller, credit_id, 1, 1, &registry), Err(MarketplaceError::CreditNotActive));
    assert_eq!(client.initialize(admin), Err(MarketplaceError::NotInitialized));
    assert_eq!(Marketplace::new().pause(addr("GA")), Err(MarketplaceError::NotInitialized));
}

#[test]
fn cancel_publishes_an_event_only_on_success() {
    let env = test_env();
    let (mut client, seller, _admin, registry, credit_id) = setup_with_registry(&env);
    let id = client.create_offer(&env, seller.clone(), credit_id, 1, 1, &registry).unwrap();
    let after_create = client.events().len();
    assert!(client.cancel_offer(addr("GOTHER"), id).is_err());
    assert_eq!(client.events().len(), after_create);
    client.cancel_offer(seller.clone(), id).unwrap();
    assert_eq!(client.events().len(), after_create + 1);
    assert!(matches!(
        client.events().last(),
        Some(MarketplaceEvent::OfferCancelled { offer_id: 0, .. })
    ));
    assert!(client.cancel_offer(seller, id).is_err());
    assert_eq!(client.events().len(), after_create + 1);
}

#[test]
fn offers_are_listed_per_seller() {
    let env = test_env();
    let (mut client, seller, _admin, registry, credit_id) = setup_with_registry(&env);
    let other = addr("GOTHER");
    let a = client.create_offer(&env, seller.clone(), credit_id, 1, 1, &registry).unwrap();
    let b = client.create_offer(&env, other.clone(), credit_id, 2, 2, &registry).unwrap();
    assert_eq!(client.get_offers_by_seller(seller.clone()), vec![a]);
    assert_eq!(client.get_offers_by_seller(other.clone()), vec![b]);
    assert_eq!(client.get_active_offers_by_seller(other), vec![b]);
    assert!(client.get_offers_by_seller(addr("GNOBODY")).is_empty());
    let offer = client.get_offer(b).unwrap();
    assert_eq!(offer.seller, "GOTHER");
    assert_eq!(offer.tonnes, 2);
    assert_eq!(offer.credit_id, credit_id);
}

#[test]
fn stored_values_reload_to_the_same_marketplace() {
    let env = test_env();
    let (mut client, seller, admin, registry, credit_id) = setup_with_registry(&env);
    let a = client.create_offer(&env, seller.clone(), credit_id, 3, 4, &registry).unwrap();
    let b = client.create_offer(&env, seller.clone(), credit_id, 5, 6, &registry).unwrap();
    client.cancel_offer(seller.clone(), a).unwrap();
    client.pause(admin).unwrap();
    let reloaded = Marketplace::from_parts(client.into_parts());
    assert!(reloaded.paused());
    assert_eq!(reloaded.offer_count(), 2);
    assert_eq!(reloaded.get_offers_by_seller(seller.clone()), vec![a, b]);
    assert_eq!(reloaded.get_active_offers_by_seller(seller), vec![b]);
    assert_eq!(reloaded.get_offer(b).unwrap().price_xlm, 5);
}

#[test]
fn offer_is_created_at_the_given_time() {
    let env = test_env();
    let (mut market, seller, _admin, _registry, credit_id) = setup_with_registry(&env);
    let id = market
        .list_credit_at(seller, credit_id, 50, 10, carbonchain::registry::types::CreditStatus::Active, 777)
        .unwrap();
    assert_eq!(market.get_offer(id).unwrap().created_at, 777);
}

#[test]
fn market_has_admin_once_initialized() {
    let mut market = Marketplace::new();
    assert!(!market.has_admin());
    market.initialize(addr("GADMIN")).unwrap();
    assert!(market.has_admin());
}
