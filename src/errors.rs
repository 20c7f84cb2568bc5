use vstd::prelude::*;

verus! {

/// Every way an issuance, a revocation or a presentation check can fail.
#[derive(Debug, Clone)]
pub enum IssuerError {
    /// The holder still has a live challenge.
    ChallengePendingError,
    /// The stored challenge is past its expiration.
    ChallengeExpired,
    InvalidOrPendingRequestError,
    /// No challenge is on file for the holder.
    NonExistingRequestError,
    /// The DID-bound signature does not verify, or answers another nonce.
    InvalidIdentitySignatureError,
    /// The holder document has no `#ethAddress` verification method.
    EthMethodNotFound,
    /// The `#ethAddress` method has the wrong type or a malformed account id.
    InvalidVerificationMethodType,
    /// The wallet signature recovers to another address than the one on file.
    SignatureError,
    /// The wallet signature is malformed and no address can be recovered.
    AddressRecoveryError,
    /// Submission, confirmation or timeout of a contract call failed.
    ContractError(String),
    ContractAddressRecoveryError,
    /// The transaction was mined but its receipt lacks the expected event.
    EventNotFound,
    RowNotFound,
    /// DID resolution or credential handling failed in the identity framework.
    IdentityError(String),
    MiddlewareError(String),
    OtherError(String),
    Unknown,
}

/// The HTTP status that answers each error.
pub open spec fn status_of(e: IssuerError) -> u16 {
    match e {
        IssuerError::ChallengePendingError => 429,
        IssuerError::ChallengeExpired => 410,
        IssuerError::InvalidOrPendingRequestError => 400,
        IssuerError::NonExistingRequestError => 404,
        IssuerError::InvalidIdentitySignatureError => 400,
        IssuerError::EthMethodNotFound => 400,
        IssuerError::InvalidVerificationMethodType => 400,
        IssuerError::SignatureError => 400,
        IssuerError::AddressRecoveryError => 400,
        IssuerError::RowNotFound => 404,
        _ => 500,
    }
}

impl IssuerError {
    pub fn status_code(&self) -> (r: u16)
        ensures
            r == status_of(*self),
    {
        match self {
            IssuerError::ChallengePendingError => 429,
            IssuerError::ChallengeExpired => 410,
            IssuerError::InvalidOrPendingRequestError => 400,
            IssuerError::NonExistingRequestError => 404,
            IssuerError::InvalidIdentitySignatureError => 400,
            IssuerError::EthMethodNotFound => 400,
            IssuerError::InvalidVerificationMethodType => 400,
            IssuerError::SignatureError => 400,
            IssuerError::AddressRecoveryError => 400,
            IssuerError::ContractError(_) => 500,
            IssuerError::ContractAddressRecoveryError => 500,
            IssuerError::EventNotFound => 500,
            IssuerError::RowNotFound => 404,
            IssuerError::IdentityError(_) => 500,
            IssuerError::MiddlewareError(_) => 500,
            IssuerError::OtherError(_) => 500,
            IssuerError::Unknown => 500,
        }
    }
}

/// The registry's own refusal, kept for callers that only issue challenges.
#[derive(Debug, Clone, Copy, PartialEq, Eq, Structural)]
pub enum ChallengeError {
    ChallengePendingError,
}

} // verus!
