use vstd::prelude::*;

verus! {

/// One stored challenge: the nonce handed to a holder and the second (Unix
/// time) after which it is no longer valid.
#[derive(Debug, Clone)]
pub struct HolderChallenge {
    pub did_holder: String,
    pub challenge: String,
    pub expiration: u64,
}

/// The issuer's own identity: its DID and the fragment of its signing method.
#[derive(Debug, Clone)]
pub struct IssuerIdentity {
    pub did: String,
    pub fragment: String,
}

/// User-supplied claims, carried verbatim into the credential subject.
#[derive(Debug, Clone)]
pub struct CredentialSubject {
    pub alternate_name: String,
}

/// The body of a credential request.
#[derive(Debug, Clone)]
pub struct CredentialRequestDTO {
    pub did: String,
    pub nonce: String,
    pub identity_signature: String,
    pub wallet_signature: String,
    pub credential_subject: CredentialSubject,
}

/// The answer to a challenge request.
#[derive(Debug, Clone)]
pub struct ChallengeResponse {
    pub nonce: String,
}

/// What the presentation gate hands to the protected handler.
#[derive(Debug, Clone)]
pub struct VerifiedPresentation {
    pub challenge: String,
    pub vc_id: i64,
    pub did: String,
}

/// A holder request whose expiration is kept as text.
#[derive(Debug, Clone)]
pub struct HoldersRequests {
    pub did: String,
    pub request_expiration: String,
    pub nonce: String,
}

/// A request is empty when any of its three fields is empty.
pub fn is_empty_request(request: HoldersRequests) -> (r: bool)
    ensures
        r == (request.did@.len() == 0 || request.request_expiration@.len() == 0
            || request.nonce@.len() == 0),
{
    request.did.as_str().is_empty() || request.request_expiration.as_str().is_empty()
        || request.nonce.as_str().is_empty()
}

/// A secret read from the configuration.
#[derive(Debug, Clone)]
pub struct ConfigSecret(pub String);

impl ConfigSecret {
    pub fn value(&self) -> (r: String)
        ensures
            r@ == self.0@,
    {
        self.0.clone()
    }
}

/// Administrative commands run instead of the server.
#[derive(Debug, Clone, Copy, PartialEq, Eq, Structural)]
pub enum Commands {
    Revoke { credential: i64 },
}

} // verus!
