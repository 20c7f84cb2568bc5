use vc_issuer::chain::{confirm_event, encode_add_user, find_event, EventScan, LogEntry, TxOutcome};
use vc_issuer::errors::IssuerError;
use vc_issuer::holder_proofs::{
    verify_did_proof, verify_wallet_proof, HolderDocument, JwsCheck, VerificationMethod,
};

// A known personal_sign signature of "Some data" by 0x2c7536E3605D9C16a7a3D7b1898e529396a65c23.
const MESSAGE: &str = "Some data";
const SIGNATURE: &str = "0xb91467e570a6466aa9e9876cbcd013baba02900b8979d43fe208a4a4f339f5fd6007e74cd82e037b800186422fc2da167c747ef045e5d18a5f5d4300f8e1a0291c";
const ACCOUNT: &str = "eip155:1:0x2c7536E3605D9C16a7a3D7b1898e529396a65c23";

fn eth_method(account: Option<&str>, method_type: &str) -> VerificationMethod {
    VerificationMethod {
        fragment: "ethAddress".to_string(),
        method_type: method_type.to_string(),
        blockchain_account_id: account.map(|a| a.to_string()),
    }
}

fn holder(methods: Vec<VerificationMethod>) -> HolderDocument {
    HolderDocument { id: "did:example:abc".to_string(), methods }
}

fn good_holder() -> HolderDocument {
    holder(vec![
        VerificationMethod {
            fragment: "key-1".to_string(),
            method_type: "JsonWebKey".to_string(),
            blockchain_account_id: None,
        },
        eth_method(Some(ACCOUNT), "EcdsaSecp256k1RecoverySignature2020"),
    ])
}

#[test]
fn wallet_proof_accepts_matching_signer() {
    let r = verify_wallet_proof(&SIGNATURE.to_string(), &good_holder(), &MESSAGE.to_string());
    assert!(r.is_ok());
}

#[test]
fn wallet_proof_without_prefix_is_accepted_too() {
    let r = verify_wallet_proof(&SIGNATURE[2..].to_string(), &good_holder(), &MESSAGE.to_string());
    assert!(r.is_ok());
}

#[test]
fn wallet_proof_rejects_other_nonce() {
    let r = verify_wallet_proof(&SIGNATURE.to_string(), &good_holder(), &"Other data".to_string());
    assert!(matches!(r, Err(IssuerError::SignatureError)));
}

#[test]
fn wallet_proof_rejects_flipped_bit() {
    let mut bytes: Vec<char> = SIGNATURE.chars().collect();
    // flip one bit of the first byte of s
    bytes[2 + 64] = if bytes[2 + 64] == '6' { '7' } else { '6' };
    let flipped: String = bytes.into_iter().collect();
    let r = verify_wallet_proof(&flipped, &good_holder(), &MESSAGE.to_string());
    assert!(matches!(r, Err(IssuerError::SignatureError) | Err(IssuerError::AddressRecoveryError)));
}

#[test]
fn wallet_proof_rejects_malformed_signature() {
    let r = verify_wallet_proof(&"0x1234".to_string(), &good_holder(), &MESSAGE.to_string());
    assert!(matches!(r, Err(IssuerError::AddressRecoveryError)));
    let r = verify_wallet_proof(&"0xzz".to_string(), &good_holder(), &MESSAGE.to_string());
    assert!(matches!(r, Err(IssuerError::AddressRecoveryError)));
}

#[test]
fn wallet_proof_method_errors() {
    let sig = SIGNATURE.to_string();
    let nonce = MESSAGE.to_string();
    let none = holder(vec![]);
    assert!(matches!(verify_wallet_proof(&sig, &none, &nonce), Err(IssuerError::EthMethodNotFound)));
    let wrong_type = holder(vec![eth_method(Some(ACCOUNT), "JsonWebKey")]);
    assert!(matches!(
        verify_wallet_proof(&sig, &wrong_type, &nonce),
        Err(IssuerError::InvalidVerificationMethodType)
    ));
    let no_account = holder(vec![eth_method(None, "EcdsaSecp256k1RecoverySignature2020")]);
    assert!(matches!(
        verify_wallet_proof(&sig, &no_account, &nonce),
        Err(IssuerError::InvalidVerificationMethodType)
    ));
    let other_chain = holder(vec![eth_method(
        Some("eip155:5:0x2c7536E3605D9C16a7a3D7b1898e529396a65c23"),
        "EcdsaSecp256k1RecoverySignature2020",
    )]);
    assert!(matches!(
        verify_wallet_proof(&sig, &other_chain, &nonce),
        Err(IssuerError::InvalidVerificationMethodType)
    ));
    let short_address = holder(vec![eth_method(Some("eip155:1:0x2c75"), "EcdsaSecp256k1RecoverySignature2020")]);
    assert!(matches!(
        verify_wallet_proof(&sig, &short_address, &nonce),
        Err(IssuerError::InvalidVerificationMethodType)
    ));
    let other_address = holder(vec![eth_method(
        Some("eip155:1:0x0000000000000000000000000000000000000001"),
        "EcdsaSecp256k1RecoverySignature2020",
    )]);
    assert!(matches!(
        verify_wallet_proof(&sig, &other_address, &nonce),
        Err(IssuerError::SignatureError)
    ));
}

#[test]
fn first_eth_method_decides() {
    let doc = holder(vec![
        eth_method(Some(ACCOUNT), "JsonWebKey"),
        eth_method(Some(ACCOUNT), "EcdsaSecp256k1RecoverySignature2020"),
    ]);
    let r = verify_wallet_proof(&SIGNATURE.to_string(), &doc, &MESSAGE.to_string());
    assert!(matches!(r, Err(IssuerError::InvalidVerificationMethodType)));
}

#[test]
fn did_proof_binds_the_nonce() {
    let check = JwsCheck { signature_valid: true, nonce: Some("n1".to_string()) };
    assert!(verify_did_proof(&check, &"n1".to_string()).is_ok());
    assert!(matches!(
        verify_did_proof(&check, &"n2".to_string()),
        Err(IssuerError::InvalidIdentitySignatureError)
    ));
    let unsigned = JwsCheck { signature_valid: false, nonce: Some("n1".to_string()) };
    assert!(matches!(
        verify_did_proof(&unsigned, &"n1".to_string()),
        Err(IssuerError::InvalidIdentitySignatureError)
    ));
    let no_nonce = JwsCheck { signature_valid: true, nonce: None };
    assert!(verify_did_proof(&no_nonce, &"n1".to_string()).is_err());
}

#[test]
fn pair_of_proofs_does_not_replay() {
    let check = JwsCheck { signature_valid: true, nonce: Some(MESSAGE.to_string()) };
    let doc = good_holder();
    let sig = SIGNATURE.to_string();
    let n1 = MESSAGE.to_string();
    assert!(verify_did_proof(&check, &n1).is_ok() && verify_wallet_proof(&sig, &doc, &n1).is_ok());
    let n2 = "4a1f0b7e-0000-4000-8000-000000000000".to_string();
    assert!(verify_did_proof(&check, &n2).is_err());
    assert!(verify_wallet_proof(&sig, &doc, &n2).is_err());
}

#[test]
fn add_user_arguments() {
    let call = encode_add_user(7, 2_000, 1_000, &"0x0aFF".to_string(), &"nonce".to_string()).unwrap();
    assert_eq!(call.credential_id, 7);
    assert_eq!(call.expiration_date, 2_000);
    assert_eq!(call.issuance_date, 1_000);
    assert_eq!(call.wallet_signature, vec![0x0a, 0xff]);
    assert_eq!(call.challenge, b"nonce".to_vec());
    let missing_prefix = encode_add_user(7, 2_000, 1_000, &"0aff".to_string(), &"n".to_string());
    assert!(matches!(missing_prefix, Err(IssuerError::OtherError(_))));
    let bad_hex = encode_add_user(7, 2_000, 1_000, &"0xabc".to_string(), &"n".to_string());
    assert!(matches!(bad_hex, Err(IssuerError::OtherError(_))));
}

fn log(topic0: u8) -> LogEntry {
    LogEntry { topics: vec![[topic0; 32], [9u8; 32]], data: vec![1, 2, 3] }
}

#[test]
fn event_scan() {
    let logs = vec![LogEntry { topics: vec![], data: vec![] }, log(1), log(2), log(2)];
    assert_eq!(find_event(&logs, &[2u8; 32]), EventScan::Found(2));
    assert_eq!(find_event(&logs, &[3u8; 32]), EventScan::NotFound);
    assert_eq!(find_event(&vec![], &[3u8; 32]), EventScan::NotFound);
}

#[test]
fn confirmation_outcomes() {
    assert!(confirm_event(TxOutcome::Confirmed(vec![log(1)]), &[1u8; 32]).is_ok());
    assert!(matches!(
        confirm_event(TxOutcome::Confirmed(vec![log(1)]), &[2u8; 32]),
        Err(IssuerError::EventNotFound)
    ));
    match confirm_event(TxOutcome::Failed("timeout".to_string()), &[1u8; 32]) {
        Err(IssuerError::ContractError(d)) => assert_eq!(d, "timeout"),
        other => panic!("unexpected {:?}", other),
    }
}
