use soroban_sdk::xdr::ToXdr;
use carbonchain::registry::types::{CarbonChainError, CreditStatus, RegistryEvent};
use carbonchain::registry::{CreditRegistry, MAX_CREDIT_TONNES};
use soroban_sdk::testutils::EnvTestConfig;
use soroban_sdk::Env;

fn test_env() -> Env {
    Env::new_with_config(EnvTestConfig { capture_snapshot_at_drop: false })
}

fn addr(s: &str) -> String {
    s.to_string()
}

/// A registry initialized by an administrator, and a verifier not yet registered.
fn setup() -> (Env, CreditRegistry, String, String) {
    let env = test_env();
    let mut reg = CreditRegistry::new();
    let admin = addr("GADMIN");
    let verifier = addr("GVERIFIER");
    let retirement = addr("CRETIREMENT");
    reg.initialize(admin.clone(), retirement).unwrap();
    (env, reg, admin, verifier)
}

fn submit_with(env: &Env, reg: &mut CreditRegistry, issuer: &str, tonnes: i128) -> Result<[u8; 32], CarbonChainError> {
    reg.submit_credit(
        env,
        addr(issuer),
        "PROJ-001".to_string(),
        2024,
        "VCS".to_string(),
        "NG".to_string(),
        tonnes,
        "bafybei123".to_string(),
    )
}

fn submit_test_credit(env: &Env, reg: &mut CreditRegistry, issuer: &str) -> [u8; 32] {
    submit_with(env, reg, issuer, 1_000_000).unwrap()
}

#[test]
fn test_initialize_twice_fails() {
    let (_env, mut reg, admin, _) = setup();
    let retirement = addr("CRETIREMENT2");
    let result = reg.initialize(admin, retirement);
    assert!(result.is_err());
}

#[test]
fn test_register_and_list_verifier() {
    let (_env, mut reg, admin, verifier) = setup();
    reg.register_verifier(admin, verifier.clone()).unwrap();
    let list = reg.list_verifiers();
    assert_eq!(list.len(), 1);
    assert_eq!(list[0], verifier);
}

#[test]
fn test_register_verifier_twice_fails() {
    let (_env, mut reg, admin, verifier) = setup();
    reg.register_verifier(admin.clone(), verifier.clone()).unwrap();
    let result = reg.register_verifier(admin, verifier);
    assert!(result.is_err());
}

#[test]
fn test_remove_verifier() {
    let (_env, mut reg, admin, verifier) = setup();
    reg.register_verifier(admin.clone(), verifier.clone()).unwrap();
    reg.remove_verifier(admin, verifier).unwrap();
    assert_eq!(reg.list_verifiers().len(), 0);
}

#[test]
fn test_submit_credit() {
    let (env, mut reg, _, _) = setup();
    let id = submit_test_credit(&env, &mut reg, "GISSUER");
    let credit = reg.get_credit(id).unwrap();
    assert_eq!(credit.status, CreditStatus::Pending);
    assert_eq!(credit.tonnes, 1_000_000);
}

#[test]
fn test_approve_and_mint() {
    let (env, mut reg, admin, verifier) = setup();
    reg.register_verifier(admin, verifier.clone()).unwrap();
    let id = submit_test_credit(&env, &mut reg, "GISSUER");
    reg.approve_and_mint(verifier, id).unwrap();
    assert_eq!(reg.get_credit(id).unwrap().status, CreditStatus::Active);
}

#[test]
fn test_approve_non_pending_fails() {
    let (env, mut reg, admin, verifier) = setup();
    reg.register_verifier(admin, verifier.clone()).unwrap();
    let id = submit_test_credit(&env, &mut reg, "GISSUER");
    reg.approve_and_mint(verifier.clone(), id).unwrap();
    // second approval should fail
    let result = reg.approve_and_mint(verifier, id);
    assert!(result.is_err());
}

#[test]
fn test_flag_credit() {
    let (env, mut reg, admin, verifier) = setup();
    reg.register_verifier(admin, verifier.clone()).unwrap();
    let id = submit_test_credit(&env, &mut reg, "GISSUER");
    reg.flag_credit(verifier, id, "suspicious data".to_string()).unwrap();
    assert_eq!(reg.get_credit(id).unwrap().status, CreditStatus::Flagged);
}

#[test]
fn test_mark_retired() {
    let env = test_env();
    let mut reg = CreditRegistry::new();
    let admin = addr("GADMIN");
    let verifier = addr("GVERIFIER");
    let retirement = addr("CRETIREMENT");
    reg.initialize(admin.clone(), retirement).unwrap();
    reg.register_verifier(admin, verifier.clone()).unwrap();
    let id = submit_test_credit(&env, &mut reg, "GISSUER");
    reg.approve_and_mint(verifier, id).unwrap();
    reg.mark_retired(id).unwrap();
    assert_eq!(reg.get_credit(id).unwrap().status, CreditStatus::Retired);
}

#[test]
fn test_submit_credit_zero_tonnes_fails() {
    let (env, mut reg, _, _) = setup();
    let result = submit_with(&env, &mut reg, "GISSUER", 0);
    assert!(result.is_err());
}

#[test]
fn test_submit_credit_negative_tonnes_fails() {
    let (env, mut reg, _, _) = setup();
    let result = submit_with(&env, &mut reg, "GISSUER", -1);
    assert!(result.is_err());
}

#[test]
fn test_submit_credit_over_upper_bound_fails() {
    let (env, mut reg, _, _) = setup();
    let result = submit_with(&env, &mut reg, "GISSUER", 1_000_000_000_000_001);
    assert!(result.is_err());
}

#[test]
fn test_submit_credit_at_upper_bound_succeeds() {
    let (env, mut reg, _, _) = setup();
    let result = submit_with(&env, &mut reg, "GISSUER", 1_000_000_000_000_000);
    assert!(result.is_ok());
}

#[test]
fn test_list_credits_by_project() {
    let (env, mut reg, _, _) = setup();
    submit_test_credit(&env, &mut reg, "GISSUER");
    let ids = reg.list_credits_by_project("PROJ-001".to_string());
    assert_eq!(ids.len(), 1);
}

#[test]
fn test_non_verifier_cannot_approve() {
    let (env, mut reg, _, _) = setup();
    let id = submit_test_credit(&env, &mut reg, "GISSUER");
    let fake = addr("GFAKE");
    let result = reg.approve_and_mint(fake, id);
    assert!(result.is_err());
}

// ── Further cases ─────────────────────────────────────────────────────────────

#[test]
fn submit_before_initialize_is_refused() {
    let env = test_env();
    let mut reg = CreditRegistry::new();
    let result = submit_with(&env, &mut reg, "GISSUER", 5);
    assert_eq!(result, Err(CarbonChainError::NotInitialized));
    assert!(reg.list_credits_by_project("PROJ-001".to_string()).is_empty());
}

#[test]
fn invalid_tonnes_are_refused_with_invalid_tonnes() {
    let (env, mut reg, _, _) = setup();
    assert_eq!(submit_with(&env, &mut reg, "GISSUER", 0), Err(CarbonChainError::InvalidTonnes));
    assert_eq!(submit_with(&env, &mut reg, "GISSUER", MAX_CREDIT_TONNES + 1), Err(CarbonChainError::InvalidTonnes));
    assert_eq!(submit_with(&env, &mut reg, "GISSUER", 1).is_ok(), true);
}

#[test]
fn two_credits_for_one_project_get_distinct_ids() {
    let (env, mut reg, _, _) = setup();
    let first = submit_test_credit(&env, &mut reg, "GISSUER");
    let second = submit_test_credit(&env, &mut reg, "GISSUER");
    assert_ne!(first, second);
    let ids = reg.list_credits_by_project("PROJ-001".to_string());
    assert_eq!(ids, vec![first, second]);
}

#[test]
fn credit_ids_are_stable_for_the_same_project_and_counter() {
    let (env_a, mut reg_a, _, _) = setup();
    let (env_b, mut reg_b, _, _) = setup();
    let a = submit_test_credit(&env_a, &mut reg_a, "GISSUER");
    let b = submit_test_credit(&env_b, &mut reg_b, "GOTHER");
    assert_eq!(a, b);
}

#[test]
fn submitted_credit_keeps_its_metadata() {
    let (env, mut reg, _, _) = setup();
    let id = submit_test_credit(&env, &mut reg, "GISSUER");
    let credit = reg.get_credit(id).unwrap();
    assert_eq!(credit.project_id, "PROJ-001");
    assert_eq!(credit.issuer, "GISSUER");
    assert_eq!(credit.vintage_year, 2024);
    assert_eq!(credit.methodology, "VCS");
    assert_eq!(credit.geography, "NG");
    assert_eq!(credit.ipfs_hash, "bafybei123");
    assert!(matches!(
        reg.events().last(),
        Some(RegistryEvent::CreditSubmitted { tonnes: 1_000_000, .. })
    ));
}

#[test]
fn unknown_credit_is_not_found() {
    let (_env, mut reg, admin, verifier) = setup();
    reg.register_verifier(admin, verifier.clone()).unwrap();
    let missing = [7u8; 32];
    assert_eq!(reg.get_credit(missing).unwrap_err(), CarbonChainError::CreditNotFound);
    assert_eq!(reg.approve_and_mint(verifier.clone(), missing), Err(CarbonChainError::CreditNotFound));
    assert_eq!(reg.flag_credit(verifier, missing, "x".to_string()), Err(CarbonChainError::CreditNotFound));
    assert_eq!(reg.mark_retired(missing), Err(CarbonChainError::CreditNotFound));
}

#[test]
fn retired_credit_cannot_be_flagged_or_retired_again() {
    let (env, mut reg, admin, verifier) = setup();
    reg.register_verifier(admin, verifier.clone()).unwrap();
    let id = submit_test_credit(&env, &mut reg, "GISSUER");
    assert_eq!(reg.mark_retired(id), Err(CarbonChainError::InvalidStatusTransition));
    reg.approve_and_mint(verifier.clone(), id).unwrap();
    reg.mark_retired(id).unwrap();
    assert_eq!(reg.flag_credit(verifier.clone(), id, "late".to_string()), Err(CarbonChainError::InvalidStatusTransition));
    assert_eq!(reg.mark_retired(id), Err(CarbonChainError::InvalidStatusTransition));
    assert_eq!(reg.approve_and_mint(verifier, id), Err(CarbonChainError::InvalidStatusTransition));
    assert_eq!(reg.get_credit(id).unwrap().status, CreditStatus::Retired);
}

#[test]
fn flagged_credit_can_be_flagged_again_but_not_minted() {
    let (env, mut reg, admin, verifier) = setup();
    reg.register_verifier(admin, verifier.clone()).unwrap();
    let id = submit_test_credit(&env, &mut reg, "GISSUER");
    reg.flag_credit(verifier.clone(), id, "a".to_string()).unwrap();
    reg.flag_credit(verifier.clone(), id, "b".to_string()).unwrap();
    assert_eq!(reg.approve_and_mint(verifier, id), Err(CarbonChainError::InvalidStatusTransition));
}

#[test]
fn mark_retired_needs_initialization() {
    let mut reg = CreditRegistry::new();
    assert_eq!(reg.mark_retired([1u8; 32]), Err(CarbonChainError::NotInitialized));
}

#[test]
fn only_the_admin_manages_verifiers() {
    let (_env, mut reg, admin, verifier) = setup();
    let other = addr("GOTHER");
    assert_eq!(reg.register_verifier(other.clone(), verifier.clone()), Err(CarbonChainError::Unauthorized));
    assert_eq!(reg.remove_verifier(admin.clone(), verifier.clone()), Err(CarbonChainError::VerifierNotFound));
    reg.register_verifier(admin.clone(), verifier.clone()).unwrap();
    assert_eq!(reg.remove_verifier(other, verifier.clone()), Err(CarbonChainError::Unauthorized));
    assert_eq!(reg.list_verifiers(), vec![verifier]);
    let fresh = CreditRegistry::new().register_verifier(admin, addr("GX"));
    assert_eq!(fresh, Err(CarbonChainError::NotInitialized));
}

#[test]
fn removing_one_verifier_keeps_the_others_in_order() {
    let (_env, mut reg, admin, _) = setup();
    for v in ["GV1", "GV2", "GV3"] {
        reg.register_verifier(admin.clone(), addr(v)).unwrap();
    }
    reg.remove_verifier(admin, addr("GV2")).unwrap();
    assert_eq!(reg.list_verifiers(), vec![addr("GV1"), addr("GV3")]);
    assert!(matches!(reg.events().last(), Some(RegistryEvent::VerifierRemoved { .. })));
}

#[test]
fn refused_request_publishes_nothing() {
    let (_env, mut reg, _, verifier) = setup();
    let before = reg.events().len();
    assert!(reg.approve_and_mint(verifier, [0u8; 32]).is_err());
    assert_eq!(reg.events().len(), before);
}

#[test]
fn credit_id_is_the_digest_of_project_and_nonce() {
    let (env, mut reg, _, _) = setup();
    let first = submit_test_credit(&env, &mut reg, "GISSUER");
    let second = submit_test_credit(&env, &mut reg, "GISSUER");
    for (nonce, id) in [(0u64, first), (1u64, second)] {
        let mut preimage = soroban_sdk::String::from_str(&env, "PROJ-001").to_xdr(&env);
        preimage.append(&nonce.to_xdr(&env));
        let expected: [u8; 32] = env.crypto().sha256(&preimage).to_array();
        assert_eq!(id, expected);
    }
}

#[test]
fn stored_values_reload_to_the_same_registry() {
    let (env, mut reg, admin, verifier) = setup();
    reg.register_verifier(admin, verifier.clone()).unwrap();
    let id = submit_test_credit(&env, &mut reg, "GISSUER");
    reg.approve_and_mint(verifier.clone(), id).unwrap();
    let expected = reg.get_credit(id).unwrap();
    let reloaded = CreditRegistry::from_parts(reg.into_parts());
    assert_eq!(reloaded.get_credit(id).unwrap(), expected);
    assert_eq!(reloaded.list_verifiers(), vec![verifier]);
    assert_eq!(reloaded.list_credits_by_project("PROJ-001".to_string()), vec![id]);
    assert_eq!(reloaded.credit_nonce(), 1);
    assert!(reloaded.events().is_empty());
}

#[test]
fn approvals_and_flags_count_toward_the_verifier_reputation() {
    let (env, mut reg, admin, verifier) = setup();
    let other = addr("GOTHERVERIFIER");
    reg.register_verifier(admin.clone(), verifier.clone()).unwrap();
    reg.register_verifier(admin, other.clone()).unwrap();
    let unknown = reg.get_verifier_reputation(verifier.clone());
    assert_eq!((unknown.approval_count, unknown.dispute_count), (0, 0));
    let a = submit_test_credit(&env, &mut reg, "GISSUER");
    let b = submit_test_credit(&env, &mut reg, "GISSUER");
    reg.approve_and_mint(verifier.clone(), a).unwrap();
    let rep = reg.get_verifier_reputation(verifier.clone());
    assert_eq!((rep.approval_count, rep.dispute_count), (1, 0));
    reg.flag_credit(verifier.clone(), b, "doubtful".to_string()).unwrap();
    reg.flag_credit(verifier.clone(), a, "doubtful".to_string()).unwrap();
    let rep = reg.get_verifier_reputation(verifier.clone());
    assert_eq!((rep.approval_count, rep.dispute_count), (1, 2));
    let untouched = reg.get_verifier_reputation(other);
    assert_eq!((untouched.approval_count, untouched.dispute_count), (0, 0));
}

#[test]
fn refused_approval_leaves_the_reputation_alone() {
    let (env, mut reg, admin, verifier) = setup();
    reg.register_verifier(admin, verifier.clone()).unwrap();
    let id = submit_test_credit(&env, &mut reg, "GISSUER");
    reg.approve_and_mint(verifier.clone(), id).unwrap();
    assert_eq!(reg.approve_and_mint(verifier.clone(), id), Err(CarbonChainError::InvalidStatusTransition));
    assert_eq!(reg.get_verifier_reputation(verifier.clone()).approval_count, 1);
    let reloaded = CreditRegistry::from_parts(reg.into_parts());
    assert_eq!(reloaded.get_verifier_reputation(verifier).approval_count, 1);
}

#[test]
fn credit_is_issued_at_the_given_time() {
    let (env, mut reg, _, _) = setup();
    let id = reg
        .submit_credit_at(
            &env,
            addr("GISSUER"),
            "PROJ-001".to_string(),
            2024,
            "VCS".to_string(),
            "NG".to_string(),
            5,
            "bafy".to_string(),
            1_700_000_000,
        )
        .unwrap();
    assert_eq!(reg.get_credit(id).unwrap().issued_at, 1_700_000_000);
}

#[test]
fn credit_id_hashes_the_xdr_bytes_of_project_and_nonce() {
    let (env, mut reg, _, _) = setup();
    submit_test_credit(&env, &mut reg, "GISSUER");
    let second = submit_test_credit(&env, &mut reg, "GISSUER");
    // String "PROJ-001": tag 14, length 8, eight bytes, no padding; then u64 1: tag 5, eight bytes.
    let mut bytes: Vec<u8> = vec![0, 0, 0, 14, 0, 0, 0, 8];
    bytes.extend_from_slice(b"PROJ-001");
    bytes.extend_from_slice(&[0, 0, 0, 5, 0, 0, 0, 0, 0, 0, 0, 1]);
    let preimage = soroban_sdk::Bytes::from_slice(&env, &bytes);
    let expected: [u8; 32] = env.crypto().sha256(&preimage).to_array();
    assert_eq!(second, expected);
}

#[test]
fn verifier_list_never_repeats_an_address() {
    let (_env, mut reg, admin, _) = setup();
    for v in ["GV1", "GV2", "GV1", "GV3", "GV2"] {
        let _ = reg.register_verifier(admin.clone(), addr(v));
    }
    reg.remove_verifier(admin.clone(), addr("GV1")).unwrap();
    reg.register_verifier(admin.clone(), addr("GV1")).unwrap();
    assert_eq!(reg.register_verifier(admin, addr("GV3")), Err(CarbonChainError::VerifierAlreadyExists));
    assert_eq!(reg.list_verifiers(), vec![addr("GV2"), addr("GV3"), addr("GV1")]);
}
