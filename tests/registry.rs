use vc_issuer::challenges::{
    check_and_clean_holder_requests, get_challenge_service, issue_challenge, ChallengeRegistry,
    CHALLENGE_TTL_SECS,
};
use vc_issuer::errors::{ChallengeError, IssuerError};
use vc_issuer::models::{is_empty_request, Commands, ConfigSecret, HolderChallenge, HoldersRequests};

fn did(s: &str) -> String {
    s.to_string()
}

#[test]
fn second_request_while_live_is_refused() {
    let mut reg = ChallengeRegistry::new();
    let d = did("did:example:abc");
    let first = get_challenge_service(&mut reg, &d, 1_000).unwrap();
    let second = get_challenge_service(&mut reg, &d, 1_000);
    assert!(matches!(second, Err(IssuerError::ChallengePendingError)));
    let at_expiry = get_challenge_service(&mut reg, &d, 1_000 + CHALLENGE_TTL_SECS);
    assert!(matches!(at_expiry, Err(IssuerError::ChallengePendingError)));
    // the refused requests left the first challenge in place
    let stored = reg.get_challenge(&d, &first).unwrap();
    assert_eq!(stored.expiration, 1_060);
    assert_eq!(reg.len(), 1);
}

#[test]
fn expired_challenge_is_replaced_by_a_new_nonce() {
    let mut reg = ChallengeRegistry::new();
    let d = did("did:example:abc");
    let n1 = get_challenge_service(&mut reg, &d, 1_000).unwrap();
    let n2 = get_challenge_service(&mut reg, &d, 1_061).unwrap();
    assert_ne!(n1, n2);
    assert!(matches!(reg.get_challenge(&d, &n1), Err(IssuerError::RowNotFound)));
    let row = reg.get_challenge(&d, &n2).unwrap();
    assert_eq!(row.expiration, 1_121);
    assert_eq!(reg.len(), 1);
}

#[test]
fn nonce_is_a_hyphenated_uuid() {
    let mut reg = ChallengeRegistry::new();
    let a = get_challenge_service(&mut reg, &did("did:example:a"), 5).unwrap();
    let b = get_challenge_service(&mut reg, &did("did:example:b"), 5).unwrap();
    assert_eq!(a.len(), 36);
    assert_eq!(a.chars().filter(|c| *c == '-').count(), 4);
    assert_eq!(a.as_bytes()[14], b'4');
    assert_ne!(a, b);
    assert_eq!(reg.len(), 2);
}

#[test]
fn issue_challenge_with_given_nonce() {
    let mut reg = ChallengeRegistry::new();
    let d = did("did:example:abc");
    let n = issue_challenge(&mut reg, &d, "n1".to_string(), 100).unwrap();
    assert_eq!(n, "n1");
    let again = issue_challenge(&mut reg, &d, "n2".to_string(), 160);
    assert!(matches!(again, Err(IssuerError::ChallengePendingError)));
    let later = issue_challenge(&mut reg, &d, "n2".to_string(), 161).unwrap();
    assert_eq!(later, "n2");
    assert!(matches!(reg.get_challenge(&d, &"n1".to_string()), Err(IssuerError::RowNotFound)));
    assert_eq!(reg.get_holder_request(&d).unwrap().challenge, "n2");
}

#[test]
fn check_and_clean_cases() {
    let mut reg = ChallengeRegistry::new();
    let d = did("did:example:abc");
    assert!(matches!(
        check_and_clean_holder_requests(&mut reg, &d, 10),
        Err(IssuerError::RowNotFound)
    ));
    issue_challenge(&mut reg, &d, "n".to_string(), 10).unwrap();
    assert!(matches!(
        check_and_clean_holder_requests(&mut reg, &d, 70),
        Err(IssuerError::ChallengePendingError)
    ));
    assert_eq!(reg.len(), 1);
    assert!(check_and_clean_holder_requests(&mut reg, &d, 71).is_ok());
    assert_eq!(reg.len(), 0);
}

#[test]
fn insert_remove_and_lookup() {
    let mut reg = ChallengeRegistry::new();
    let row = HolderChallenge {
        did_holder: did("did:example:x"),
        challenge: "abc".to_string(),
        expiration: 50,
    };
    let stored = reg.insert_challenge(row.clone()).unwrap();
    assert_eq!(stored.challenge, "abc");
    assert!(matches!(reg.insert_challenge(row), Err(IssuerError::ChallengePendingError)));
    assert!(matches!(
        reg.get_challenge(&did("did:example:x"), &"other".to_string()),
        Err(IssuerError::RowNotFound)
    ));
    assert!(matches!(
        reg.get_holder_request(&did("did:example:y")),
        Err(IssuerError::RowNotFound)
    ));
    reg.remove_challenge(&did("did:example:x"));
    assert_eq!(reg.len(), 0);
    reg.remove_challenge(&did("did:example:x"));
    assert_eq!(reg.len(), 0);
}

#[test]
fn sweep_removes_only_expired_rows() {
    let mut reg = ChallengeRegistry::new();
    issue_challenge(&mut reg, &did("did:a"), "1".to_string(), 0).unwrap();
    issue_challenge(&mut reg, &did("did:b"), "2".to_string(), 100).unwrap();
    issue_challenge(&mut reg, &did("did:c"), "3".to_string(), 30).unwrap();
    reg.cleanup_challenges(90);
    assert_eq!(reg.len(), 2);
    assert!(reg.get_holder_request(&did("did:a")).is_err());
    assert!(reg.get_holder_request(&did("did:b")).is_ok());
    assert!(reg.get_holder_request(&did("did:c")).is_ok());
    reg.cleanup_challenges(1_000);
    assert_eq!(reg.len(), 0);
}

#[test]
fn status_codes() {
    assert_eq!(IssuerError::ChallengePendingError.status_code(), 429);
    assert_eq!(IssuerError::ChallengeExpired.status_code(), 410);
    assert_eq!(IssuerError::InvalidOrPendingRequestError.status_code(), 400);
    assert_eq!(IssuerError::NonExistingRequestError.status_code(), 404);
    assert_eq!(IssuerError::InvalidIdentitySignatureError.status_code(), 400);
    assert_eq!(IssuerError::EthMethodNotFound.status_code(), 400);
    assert_eq!(IssuerError::InvalidVerificationMethodType.status_code(), 400);
    assert_eq!(IssuerError::SignatureError.status_code(), 400);
    assert_eq!(IssuerError::AddressRecoveryError.status_code(), 400);
    assert_eq!(IssuerError::ContractError("x".to_string()).status_code(), 500);
    assert_eq!(IssuerError::EventNotFound.status_code(), 500);
    assert_eq!(IssuerError::RowNotFound.status_code(), 404);
    assert_eq!(IssuerError::MiddlewareError("m".to_string()).status_code(), 500);
    assert_eq!(IssuerError::Unknown.status_code(), 500);
    assert_eq!(ChallengeError::ChallengePendingError, ChallengeError::ChallengePendingError);
}

#[test]
fn empty_requests() {
    let full = HoldersRequests {
        did: "d".to_string(),
        request_expiration: "2024-01-01T00:00:00Z".to_string(),
        nonce: "n".to_string(),
    };
    assert!(!is_empty_request(full.clone()));
    let mut no_nonce = full.clone();
    no_nonce.nonce = String::new();
    assert!(is_empty_request(no_nonce));
    let mut no_did = full;
    no_did.did = String::new();
    assert!(is_empty_request(no_did));
}

#[test]
fn config_secret_and_commands() {
    let secret = ConfigSecret("hunter2".to_string());
    assert_eq!(secret.value(), "hunter2");
    assert_eq!(Commands::Revoke { credential: 3 }, Commands::Revoke { credential: 3 });
}
