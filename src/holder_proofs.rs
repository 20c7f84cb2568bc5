use vstd::prelude::*;

use crate::encoding::{decode_hex, hex_decoded, parse_address, recover_signer, signer_of, strip_prefix};
use crate::errors::IssuerError;

verus! {

/// A verification method of a DID document, as far as the issuer reads it.
#[derive(Debug, Clone)]
pub struct VerificationMethod {
    /// The fragment of the method id (`ethAddress` in `did:...#ethAddress`).
    pub fragment: String,
    pub method_type: String,
    /// The `blockchainAccountId` property, when it is present and a string.
    pub blockchain_account_id: Option<String>,
}

/// A resolved holder DID document, as far as the issuer reads it.
#[derive(Debug, Clone)]
pub struct HolderDocument {
    pub id: String,
    pub methods: Vec<VerificationMethod>,
}

/// What checking a detached JWS against the holder document showed: whether
/// the signature verifies under a method of the document, and the `nonce`
/// of its protected header.
#[derive(Debug, Clone)]
pub struct JwsCheck {
    pub signature_valid: bool,
    pub nonce: Option<String>,
}

pub open spec fn eth_fragment() -> Seq<char> {
    "ethAddress"@
}

pub open spec fn recovery_method_type() -> Seq<char> {
    "EcdsaSecp256k1RecoverySignature2020"@
}

pub open spec fn account_prefix() -> Seq<char> {
    "eip155:1:"@
}

/// The DID-bound signature verifies and answers exactly `nonce`.
pub open spec fn did_proof_holds(check: JwsCheck, nonce: Seq<char>) -> bool {
    check.signature_valid && check.nonce is Some && check.nonce->0@ == nonce
}

/// Checks the DID-bound proof: the JWS verifies and its header nonce is the
/// one on file.
pub fn verify_did_proof(check: &JwsCheck, expected_nonce: &String) -> (r: Result<(), IssuerError>)
    ensures
        r is Ok <==> did_proof_holds(*check, expected_nonce@),
        r matches Err(e) ==> e is InvalidIdentitySignatureError,
{
    if !check.signature_valid {
        return Err(IssuerError::InvalidIdentitySignatureError);
    }
    match &check.nonce {
        Some(n) => {
            if *n == *expected_nonce {
                Ok(())
            } else {
                Err(IssuerError::InvalidIdentitySignatureError)
            }
        },
        None => Err(IssuerError::InvalidIdentitySignatureError),
    }
}

/// `i` is the first method of `ms` with fragment `f`.
pub open spec fn first_with_fragment(ms: Seq<VerificationMethod>, f: Seq<char>, i: int) -> bool {
    0 <= i < ms.len() && ms[i].fragment@ == f && forall|j: int|
        0 <= j < i ==> (#[trigger] ms[j]).fragment@ != f
}

/// The method that `#ethAddress` resolves to: the first one with that fragment.
pub open spec fn eth_method(ms: Seq<VerificationMethod>) -> Option<VerificationMethod> {
    if exists|i: int| first_with_fragment(ms, eth_fragment(), i) {
        Some(ms[choose|i: int| first_with_fragment(ms, eth_fragment(), i)])
    } else {
        None
    }
}

/// The 20-byte address written in hex in `s`, if it is one.
pub open spec fn address_of(s: Seq<char>) -> Option<Seq<u8>> {
    match hex_decoded(s) {
        Some(b) => if b.len() == 20 {
            Some(b)
        } else {
            None
        },
        None => None,
    }
}

/// The chain address that an `#ethAddress` method carries.
pub open spec fn embedded_address(vm: VerificationMethod) -> Result<Seq<u8>, IssuerError> {
    if vm.method_type@ != recovery_method_type() {
        Err(IssuerError::InvalidVerificationMethodType)
    } else {
        match vm.blockchain_account_id {
            None => Err(IssuerError::InvalidVerificationMethodType),
            Some(acc) => if !account_prefix().is_prefix_of(acc@) {
                Err(IssuerError::InvalidVerificationMethodType)
            } else {
                match address_of(acc@.skip(account_prefix().len() as int)) {
                    Some(a) => Ok(a),
                    None => Err(IssuerError::InvalidVerificationMethodType),
                }
            },
        }
    }
}

/// The outcome of the wallet proof: the wallet signature, recovered over the
/// UTF-8 bytes of `nonce`, must name the address of the holder's
/// `#ethAddress` method.
pub open spec fn wallet_check(ms: Seq<VerificationMethod>, signature: Seq<char>, nonce: Seq<char>) -> Result<(), IssuerError> {
    match eth_method(ms) {
        None => Err(IssuerError::EthMethodNotFound),
        Some(vm) => match embedded_address(vm) {
            Err(e) => Err(e),
            Ok(addr) => match hex_decoded(signature) {
                None => Err(IssuerError::AddressRecoveryError),
                Some(sig) => match signer_of(sig, vstd::utf8::encode_utf8(nonce)) {
                    None => Err(IssuerError::AddressRecoveryError),
                    Some(signer) => if signer == addr {
                        Ok(())
                    } else {
                        Err(IssuerError::SignatureError)
                    },
                },
            },
        },
    }
}

fn find_eth_method(ms: &Vec<VerificationMethod>) -> (r: Option<usize>)
    ensures
        match r {
            Some(i) => first_with_fragment(ms@, eth_fragment(), i as int) && eth_method(ms@) == Some(
                ms@[i as int],
            ),
            None => eth_method(ms@) is None,
        },
{
    let fragment = String::from_str("ethAddress");
    let mut i: usize = 0;
    while i < ms.len()
        invariant
            fragment@ == eth_fragment(),
            i <= ms@.len(),
            forall|j: int| 0 <= j < i ==> (#[trigger] ms@[j]).fragment@ != eth_fragment(),
        decreases ms@.len() - i,
    {
        if ms[i].fragment == fragment {
            proof {
                assert(first_with_fragment(ms@, eth_fragment(), i as int));
                let k = choose|k: int| first_with_fragment(ms@, eth_fragment(), k);
                if k < i {
                    assert(ms@[k].fragment@ != eth_fragment());
                }
                if k > i {
                    assert(ms@[i as int].fragment@ != eth_fragment());
                }
            }
            return Some(i);
        }
        i = i + 1;
    }
    None
}

fn read_embedded_address(vm: &VerificationMethod) -> (r: Result<[u8; 20], IssuerError>)
    ensures
        match r {
            Ok(a) => embedded_address(*vm) == Ok::<Seq<u8>, IssuerError>(a@),
            Err(e) => embedded_address(*vm) == Err::<Seq<u8>, IssuerError>(e),
        },
{
    let expected_type = String::from_str("EcdsaSecp256k1RecoverySignature2020");
    if vm.method_type != expected_type {
        return Err(IssuerError::InvalidVerificationMethodType);
    }
    match &vm.blockchain_account_id {
        None => Err(IssuerError::InvalidVerificationMethodType),
        Some(acc) => match strip_prefix(acc.as_str(), "eip155:1:") {
            None => Err(IssuerError::InvalidVerificationMethodType),
            Some(eth_addr) => match parse_address(eth_addr.as_str()) {
                Some(a) => Ok(a),
                None => Err(IssuerError::InvalidVerificationMethodType),
            },
        },
    }
}

/// Checks the wallet proof: the holder document's `#ethAddress` method has
/// the recoverable-signature type and an `eip155:1:` account, and the wallet
/// signature over the nonce's bytes recovers to that account's address.
pub fn verify_wallet_proof(wallet_signature: &String, holder_document: &HolderDocument, expected_nonce: &String) -> (r: Result<(), IssuerError>)
    ensures
        r == wallet_check(holder_document.methods@, wallet_signature@, expected_nonce@),
{
    let idx = match find_eth_method(&holder_document.methods) {
        Some(i) => i,
        None => return Err(IssuerError::EthMethodNotFound),
    };
    let address = match read_embedded_address(&holder_document.methods[idx]) {
        Ok(a) => a,
        Err(e) => return Err(e),
    };
    let signature = match decode_hex(wallet_signature.as_str()) {
        Some(b) => b,
        None => return Err(IssuerError::AddressRecoveryError),
    };
    let message = expected_nonce.as_str().as_bytes();
    match recover_signer(signature.as_slice(), message) {
        None => Err(IssuerError::AddressRecoveryError),
        Some(signer) => {
            if bytes_equal(&signer, &address) {
                Ok(())
            } else {
                Err(IssuerError::SignatureError)
            }
        },
    }
}

fn bytes_equal(a: &[u8; 20], b: &[u8; 20]) -> (r: bool)
    ensures
        r == (a@ == b@),
{
    let mut i: usize = 0;
    while i < 20
        invariant
            i <= 20,
            a@.len() == 20,
            b@.len() == 20,
            forall|j: int| 0 <= j < i ==> a@[j] == b@[j],
        decreases 20 - i,
    {
        if a[i] != b[i] {
            return false;
        }
        i = i + 1;
    }
    assert(a@ =~= b@);
    true
}

/// The pair of holder proofs against `nonce`: the DID-bound JWS and the
/// wallet signature.
pub open spec fn dual_proof_holds(check: JwsCheck, methods: Seq<VerificationMethod>, wallet_signature: Seq<char>, nonce: Seq<char>) -> bool {
    did_proof_holds(check, nonce) && wallet_check(methods, wallet_signature, nonce) is Ok
}

/// No replay: a pair of proofs that answers nonce `n1` fails against any
/// other nonce `n2`.
pub proof fn lemma_no_replay(check: JwsCheck, methods: Seq<VerificationMethod>, wallet_signature: Seq<char>, n1: Seq<char>, n2: Seq<char>)
    requires
        dual_proof_holds(check, methods, wallet_signature, n1),
        n1 != n2,
    ensures
        !did_proof_holds(check, n2),
        !dual_proof_holds(check, methods, wallet_signature, n2),
{
}

/// Address binding: a wallet proof that passes names exactly the address
/// embedded in the holder's `#ethAddress` method, recovered over the nonce's
/// bytes; a signature that recovers to anything else is rejected.
pub proof fn lemma_address_binding(methods: Seq<VerificationMethod>, wallet_signature: Seq<char>, nonce: Seq<char>)
    ensures
        wallet_check(methods, wallet_signature, nonce) is Ok <==> {
            &&& eth_method(methods) is Some
            &&& embedded_address(eth_method(methods)->0) is Ok
            &&& hex_decoded(wallet_signature) is Some
            &&& signer_of(hex_decoded(wallet_signature)->0, vstd::utf8::encode_utf8(nonce))
                == Some(embedded_address(eth_method(methods)->0)->Ok_0)
        },
{
}

} // verus!
