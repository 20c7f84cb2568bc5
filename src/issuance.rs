use vstd::prelude::*;

use crate::chain::{confirm_event, encode_add_user, has_event, wallet_signature_bytes, AddUserCall, TxOutcome};
use crate::challenges::{holds_nonce, is_live, ChallengeRegistry};
use crate::encoding::{decimal_digits, push_decimal};
use crate::errors::IssuerError;
use crate::holder_proofs::{
    did_proof_holds, verify_did_proof, verify_wallet_proof, wallet_check, HolderDocument, JwsCheck,
};
use crate::models::{CredentialRequestDTO, HolderChallenge};

verus! {

pub const ONE_DAY_SECS: u64 = 86400;

/// How long an issued credential is valid: 365 days.
pub const CREDENTIAL_VALIDITY_SECS: u64 = 31536000;

/// The issuance date asked for: one day before `now`, to tolerate clock skew
/// with the chain node.
pub open spec fn planned_issuance(now: u64) -> u64 {
    if now >= ONE_DAY_SECS {
        (now - ONE_DAY_SECS) as u64
    } else {
        0
    }
}

/// The expiration date asked for: 365 days after `now`.
pub open spec fn planned_expiration(now: u64) -> u64 {
    if now + CREDENTIAL_VALIDITY_SECS <= u64::MAX {
        (now + CREDENTIAL_VALIDITY_SECS) as u64
    } else {
        u64::MAX
    }
}

pub open spec fn credentials_path_prefix() -> Seq<char> {
    "/api/credentials/"@
}

/// The URL path that identifies credential `id`.
pub open spec fn credential_path_of(id: u64) -> Seq<char> {
    credentials_path_prefix() + decimal_digits(id as nat)
}

/// The URL path of credential `id`: `/api/credentials/<id>`.
pub fn credential_path(id: u64) -> (r: String)
    ensures
        r@ == credential_path_of(id),
{
    let mut path = String::from_str("/api/credentials/");
    push_decimal(&mut path, id);
    path
}

/// The observable steps of one issuance.
#[derive(Debug, Clone, Copy, PartialEq, Eq, Structural)]
pub enum IssuanceState {
    /// A live challenge matching the request is on file.
    ChallengeFetched,
    /// The DID-bound proof answers that challenge.
    IdentityVerified,
    /// The contract's next free credential id has been read.
    CredentialIdReserved,
    /// The credential validated, the wallet proof passed and the add-user
    /// call is ready to submit.
    ChainSubmitted,
    /// The call was confirmed with its event and the challenge consumed.
    ChallengeConsumed,
    Failed,
}

/// What the signer needs to build the credential.
#[derive(Debug, Clone)]
pub struct CredentialDraft {
    pub credential_id: u64,
    /// Path of the credential's `id` URL below the issuer's base URL.
    pub id_path: String,
    pub subject_did: String,
    pub alternate_name: String,
    pub issuance_date: u64,
    pub expiration_date: u64,
}

/// What validating the freshly signed credential against the issuer's own
/// document showed, with the dates decoded from it.
#[derive(Debug, Clone)]
pub struct CredentialValidation {
    pub signature_valid: bool,
    pub issuance_date: u64,
    pub expiration_date: Option<u64>,
}

/// The signed credential validates and its window holds `now`.
pub open spec fn self_validated(v: CredentialValidation, now: u64) -> bool {
    &&& v.signature_valid
    &&& v.expiration_date is Some
    &&& v.issuance_date <= now
    &&& now <= v.expiration_date->0
}

/// One credential issuance, from the stored challenge to the confirmed
/// on-chain record.
#[derive(Debug)]
pub struct IssuanceSession {
    pub state: IssuanceState,
    pub request: CredentialRequestDTO,
    pub challenge: HolderChallenge,
    pub holder: Option<HolderDocument>,
    pub identity_check: Option<JwsCheck>,
    pub credential_id: u64,
    pub credential_jwt: String,
}

/// Two sessions share the request and the stored challenge.
pub open spec fn same_request(a: IssuanceSession, b: IssuanceSession) -> bool {
    a.request == b.request && a.challenge == b.challenge
}

impl IssuanceSession {
    /// Starts an issuance: the challenge stored for the request's DID must
    /// carry the request's nonce (`NonExistingRequestError` otherwise) and be
    /// live at `now` (`ChallengeExpired` otherwise).
    pub fn begin_issuance(registry: &ChallengeRegistry, request: CredentialRequestDTO, now: u64) -> (r:
        Result<IssuanceSession, IssuerError>)
        requires
            registry.wf(),
        ensures
            match r {
                Ok(s) => holds_nonce(registry@, request.did@, request.nonce@) && is_live(
                    registry@[request.did@].1,
                    now,
                ) && s.state == IssuanceState::ChallengeFetched && s.request == request
                    && s.challenge.did_holder@ == request.did@ && s.challenge.challenge@
                    == request.nonce@ && s.challenge.expiration == registry@[request.did@].1
                    && s.holder is None && s.identity_check is None,
                Err(e) => (e is NonExistingRequestError && !holds_nonce(
                    registry@,
                    request.did@,
                    request.nonce@,
                )) || (e is ChallengeExpired && holds_nonce(
                    registry@,
                    request.did@,
                    request.nonce@,
                ) && !is_live(registry@[request.did@].1, now)),
            },
    {
        let challenge = match registry.get_challenge(&request.did, &request.nonce) {
            Ok(c) => c,
            Err(_) => return Err(IssuerError::NonExistingRequestError),
        };
        if now > challenge.expiration {
            return Err(IssuerError::ChallengeExpired);
        }
        Ok(
            IssuanceSession {
                state: IssuanceState::ChallengeFetched,
                request,
                challenge,
                holder: None,
                identity_check: None,
                credential_id: 0,
                credential_jwt: String::new(),
            },
        )
    }

    /// The holder's DID document has been resolved and the identity
    /// signature checked against it: the signature must answer the stored
    /// nonce.
    pub fn on_holder_resolved(&mut self, holder: HolderDocument, check: JwsCheck) -> (r: Result<
        (),
        IssuerError,
    >)
        requires
            old(self).state == IssuanceState::ChallengeFetched,
        ensures
            same_request(*final(self), *old(self)),
            r is Ok <==> did_proof_holds(check, old(self).challenge.challenge@),
            r is Ok ==> final(self).state == IssuanceState::IdentityVerified && final(self).holder
                == Some(holder) && final(self).identity_check == Some(check),
            r matches Err(e) ==> e is InvalidIdentitySignatureError && final(self).state
                == IssuanceState::Failed,
    {
        match verify_did_proof(&check, &self.challenge.challenge) {
            Ok(()) => {
                self.state = IssuanceState::IdentityVerified;
                self.holder = Some(holder);
                self.identity_check = Some(check);
                Ok(())
            },
            Err(e) => {
                self.state = IssuanceState::Failed;
                Err(e)
            },
        }
    }

    /// The contract's next free id has been read: returns what the
    /// credential is to hold.
    pub fn on_credential_id(&mut self, credential_id: u64, now: u64) -> (d: CredentialDraft)
        requires
            old(self).state == IssuanceState::IdentityVerified,
        ensures
            same_request(*final(self), *old(self)),
            final(self).holder == old(self).holder,
            final(self).identity_check == old(self).identity_check,
            final(self).state == IssuanceState::CredentialIdReserved,
            final(self).credential_id == credential_id,
            d.credential_id == credential_id,
            d.id_path@ == credential_path_of(credential_id),
            d.subject_did@ == old(self).challenge.did_holder@,
            d.alternate_name@ == old(self).request.credential_subject.alternate_name@,
            d.issuance_date == planned_issuance(now),
            d.expiration_date == planned_expiration(now),
    {
        self.state = IssuanceState::CredentialIdReserved;
        self.credential_id = credential_id;
        CredentialDraft {
            credential_id,
            id_path: credential_path(credential_id),
            subject_did: self.challenge.did_holder.clone(),
            alternate_name: self.request.credential_subject.alternate_name.clone(),
            issuance_date: now.saturating_sub(ONE_DAY_SECS),
            expiration_date: now.saturating_add(CREDENTIAL_VALIDITY_SECS),
        }
    }

    /// The credential has been signed and validated against the issuer's
    /// document. It must validate, with `now` inside its window; then the
    /// wallet proof must pass. On success returns the add-user call, carrying
    /// the credential's dates, the wallet signature and the challenge.
    pub fn on_credential_built(
        &mut self,
        credential_jwt: String,
        validation: CredentialValidation,
        now: u64,
    ) -> (r: Result<AddUserCall, IssuerError>)
        requires
            old(self).state == IssuanceState::CredentialIdReserved,
            old(self).holder is Some,
        ensures
            same_request(*final(self), *old(self)),
            final(self).holder == old(self).holder,
            final(self).identity_check == old(self).identity_check,
            final(self).credential_id == old(self).credential_id,
            ({
                let ms = old(self).holder->0.methods@;
                let sig = old(self).request.wallet_signature@;
                let nonce = old(self).challenge.challenge@;
                match r {
                    Ok(call) => self_validated(validation, now) && wallet_check(ms, sig, nonce) is Ok
                        && final(self).state == IssuanceState::ChainSubmitted
                        && final(self).credential_jwt@ == credential_jwt@ && call.credential_id
                        == old(self).credential_id && call.issuance_date
                        == validation.issuance_date && call.expiration_date
                        == validation.expiration_date->0 && wallet_signature_bytes(sig) == Some(
                        call.wallet_signature@,
                    ) && call.challenge@ == vstd::utf8::encode_utf8(nonce),
                    Err(e) => final(self).state == IssuanceState::Failed && if !self_validated(
                        validation,
                        now,
                    ) {
                        e is OtherError
                    } else if wallet_check(ms, sig, nonce) is Err {
                        e == wallet_check(ms, sig, nonce)->Err_0
                    } else {
                        e is OtherError && wallet_signature_bytes(sig) is None
                    },
                }
            }),
    {
        let expiration_date = match validation.expiration_date {
            Some(d) => d,
            None => {
                self.state = IssuanceState::Failed;
                return Err(IssuerError::OtherError(String::from_str("credential has no expiration date")));
            },
        };
        if !validation.signature_valid || validation.issuance_date > now || now > expiration_date {
            self.state = IssuanceState::Failed;
            return Err(IssuerError::OtherError(String::from_str("credential self-validation failed")));
        }
        let wallet = match &self.holder {
            Some(holder) => verify_wallet_proof(
                &self.request.wallet_signature,
                holder,
                &self.challenge.challenge,
            ),
            None => Err(IssuerError::Unknown),
        };
        if let Err(e) = wallet {
            self.state = IssuanceState::Failed;
            return Err(e);
        }
        match encode_add_user(
            self.credential_id,
            expiration_date,
            validation.issuance_date,
            &self.request.wallet_signature,
            &self.challenge.challenge,
        ) {
            Ok(call) => {
                self.state = IssuanceState::ChainSubmitted;
                self.credential_jwt = credential_jwt;
                Ok(call)
            },
            Err(e) => {
                self.state = IssuanceState::Failed;
                Err(e)
            },
        }
    }

    /// The add-user call has ended. Success needs a confirmed receipt with
    /// the expected event; then the challenge is consumed and the credential
    /// id and JWT are handed back.
    pub fn on_chain_outcome(
        &mut self,
        registry: &mut ChallengeRegistry,
        outcome: TxOutcome,
        event: &[u8; 32],
    ) -> (r: Result<(u64, String), IssuerError>)
        requires
            old(self).state == IssuanceState::ChainSubmitted,
            old(registry).wf(),
        ensures
            same_request(*final(self), *old(self)),
            final(registry).wf(),
            match outcome {
                TxOutcome::Failed(detail) => r matches Err(IssuerError::ContractError(d)) && d@
                    == detail@ && final(self).state == IssuanceState::Failed && final(registry)@
                    == old(registry)@,
                TxOutcome::Confirmed(logs) => if has_event(logs@, event@) {
                    r matches Ok((id, jwt)) && id == old(self).credential_id && jwt@ == old(
                        self,
                    ).credential_jwt@ && final(self).state == IssuanceState::ChallengeConsumed
                        && final(registry)@ == old(registry)@.remove(old(self).challenge.did_holder@)
                } else {
                    r matches Err(e) && e is EventNotFound && final(self).state
                        == IssuanceState::Failed && final(registry)@ == old(registry)@
                },
            },
    {
        match confirm_event(outcome, event) {
            Ok(()) => {
                registry.remove_challenge(&self.challenge.did_holder);
                self.state = IssuanceState::ChallengeConsumed;
                Ok((self.credential_id, self.credential_jwt.clone()))
            },
            Err(e) => {
                self.state = IssuanceState::Failed;
                Err(e)
            },
        }
    }
}

/// Self-consistency of the dates: the window the coordinator asks for always
/// holds the moment of issuance.
pub proof fn lemma_planned_window(now: u64)
    ensures
        planned_issuance(now) <= now <= planned_expiration(now),
{
}

} // verus!
