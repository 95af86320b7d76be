use soroban_sdk::xdr::ToXdr;
use carbonchain::registry::types::{CarbonChainError, CreditStatus};
use carbonchain::registry::CreditRegistry;
use carbonchain::retirement::{Retirement, RetirementEvent};
use soroban_sdk::testutils::EnvTestConfig;
use soroban_sdk::Env;

fn test_env() -> Env {
    Env::new_with_config(EnvTestConfig { capture_snapshot_at_drop: false })
}

fn addr(s: &str) -> String {
    s.to_string()
}

/// A retirement ledger, and a registry that knows it and holds one active credit.
fn setup(env: &Env) -> (Retirement, CreditRegistry, [u8; 32]) {
    let retirement = Retirement::new();
    let mut registry = CreditRegistry::new();
    let admin = addr("GADMIN");
    let verifier = addr("GVERIFIER");
    let issuer = addr("GISSUER");

    registry.initialize(admin.clone(), addr("CRETIREMENT")).unwrap();
    registry.register_verifier(admin, verifier.clone()).unwrap();

    let credit_id = registry
        .submit_credit(
            env,
            issuer,
            "PROJ-001".to_string(),
            2024,
            "VCS".to_string(),
            "NG".to_string(),
            1_000_000,
            "bafybei123".to_string(),
        )
        .unwrap();
    registry.approve_and_mint(verifier, credit_id).unwrap();

    (retirement, registry, credit_id)
}

#[test]
fn test_retire_stores_record() {
    let env = test_env();
    let (mut client, mut registry, credit_id) = setup(&env);
    let buyer = addr("GBUYER");

    let ret_id = client.retire(&env, buyer.clone(), credit_id, 1_000_000, "2024 Scope 3 offset".to_string(), &mut registry);

    let record = client.get_retirement(ret_id).unwrap();
    assert_eq!(record.buyer, buyer);
    assert_eq!(record.tonnes_retired, 1_000_000);
    assert_eq!(record.credit_id, credit_id);
}

#[test]
fn test_retire_indexes_by_account() {
    let env = test_env();
    let (mut client, mut registry, credit_id) = setup(&env);
    let buyer = addr("GBUYER");

    let ret_id = client.retire(&env, buyer.clone(), credit_id, 1_000_000, "offset".to_string(), &mut registry);

    let ids = client.get_retirements_by_account(buyer);
    assert_eq!(ids.len(), 1);
    assert_eq!(ids[0], ret_id);
}

#[test]
fn test_retire_marks_credit_retired_in_registry() {
    let env = test_env();
    let (mut client, mut registry, credit_id) = setup(&env);
    let buyer = addr("GBUYER");

    client.retire(&env, buyer, credit_id, 1_000_000, "offset".to_string(), &mut registry);

    let credit = registry.get_credit(credit_id).unwrap();
    assert_eq!(credit.status, CreditStatus::Retired);
}

// ── Further cases ────────────────────────────────────────────────────────────

#[test]
fn retired_credit_is_refused_a_second_retirement_by_the_registry() {
    let env = test_env();
    let (mut client, mut registry, credit_id) = setup(&env);
    client.retire(&env, addr("GBUYER"), credit_id, 1_000_000, "offset".to_string(), &mut registry);
    assert_eq!(registry.mark_retired(credit_id), Err(CarbonChainError::InvalidStatusTransition));
}

#[test]
fn retirement_id_is_the_digest_of_credit_reason_and_time() {
    let env = test_env();
    let (mut client, mut registry, credit_id) = setup(&env);
    let ret_id = client.retire(&env, addr("GBUYER"), credit_id, 5, "offset".to_string(), &mut registry);
    let record = client.get_retirement(ret_id).unwrap();
    let mut preimage = soroban_sdk::BytesN::from_array(&env, &credit_id).to_xdr(&env);
    preimage.append(&soroban_sdk::String::from_str(&env, "offset").to_xdr(&env));
    preimage.append(&record.retired_at.to_xdr(&env));
    let expected: [u8; 32] = env.crypto().sha256(&preimage).to_array();
    assert_eq!(ret_id, expected);
    assert_eq!(record.reason, "offset");
    assert!(matches!(
        client.events().last(),
        Some(RetirementEvent::Retired { .. })
    ));
}

#[test]
fn unknown_retirement_is_absent() {
    let client = Retirement::new();
    assert!(client.get_retirement([3u8; 32]).is_none());
    assert!(client.get_retirements_by_account(addr("GNOBODY")).is_empty());
}

#[test]
fn stored_values_reload_to_the_same_ledger() {
    let env = test_env();
    let (mut client, mut registry, credit_id) = setup(&env);
    let buyer = addr("GBUYER");
    let ret_id = client.retire(&env, buyer.clone(), credit_id, 9, "offset".to_string(), &mut registry);
    let expected = client.get_retirement(ret_id).unwrap();
    let reloaded = Retirement::from_parts(client.into_parts());
    assert_eq!(reloaded.get_retirement(ret_id).unwrap(), expected);
    assert_eq!(reloaded.get_retirements_by_account(buyer), vec![ret_id]);
}

#[test]
fn retirement_recorded_at_the_given_time_hashes_its_xdr_bytes() {
    let env = test_env();
    let (mut retirement, _registry, credit_id) = setup(&env);
    let id = retirement.record_retirement_at(&env, addr("GBUYER"), credit_id, 3, "offset".to_string(), 9);
    let record = retirement.get_retirement(id).unwrap();
    assert_eq!(record.retired_at, 9);
    // Bytes32: tag 13, length 32, the bytes; String "offset": tag 14, length 6,
    // six bytes, two of padding; u64 9: tag 5, eight bytes.
    let mut bytes: Vec<u8> = vec![0, 0, 0, 13, 0, 0, 0, 32];
    bytes.extend_from_slice(&credit_id);
    bytes.extend_from_slice(&[0, 0, 0, 14, 0, 0, 0, 6]);
    bytes.extend_from_slice(b"offset");
    bytes.extend_from_slice(&[0, 0]);
    bytes.extend_from_slice(&[0, 0, 0, 5, 0, 0, 0, 0, 0, 0, 0, 9]);
    let preimage = soroban_sdk::Bytes::from_slice(&env, &bytes);
    let expected: [u8; 32] = env.crypto().sha256(&preimage).to_array();
    assert_eq!(id, expected);
}

#[test]
fn test_duplicate_retirement_same_reason_rejected() {
    let env = test_env();
    let (mut client, mut registry, credit_id) = setup(&env);
    let buyer = addr("GBUYER");
    let reason = "2024 Scope 3 offset".to_string();

    // First retirement succeeds.
    client.retire(&env, buyer.clone(), credit_id, 1_000_000, reason.clone(), &mut registry);

    // Second retirement with the same credit must fail because the registry
    // rejects mark_retired on an already-retired credit.
    let result = client.try_retire(&env, buyer, credit_id, 1_000_000, reason, &mut registry);
    assert!(result.is_err());
}

#[test]
fn refused_retirement_records_nothing() {
    let env = test_env();
    let (mut client, mut registry, credit_id) = setup(&env);
    let first = client.try_retire(&env, addr("GBUYER"), credit_id, 7, "offset".to_string(), &mut registry).unwrap();
    let again = client.try_retire(&env, addr("GOTHER"), credit_id, 7, "other".to_string(), &mut registry);
    assert_eq!(again, Err(CarbonChainError::InvalidStatusTransition));
    assert!(client.get_retirements_by_account(addr("GOTHER")).is_empty());
    assert_eq!(client.get_retirements_by_account(addr("GBUYER")), vec![first]);
    let unknown = client.try_retire(&env, addr("GBUYER"), [3u8; 32], 7, "offset".to_string(), &mut registry);
    assert_eq!(unknown, Err(CarbonChainError::CreditNotFound));
}
