use vstd::prelude::*;

use crate::challenges::{holds_nonce, is_live, ChallengeRegistry};
use crate::encoding::{
    all_dec_digits, decimal_digits, digits_value, lemma_decimal_round_trip, parse_i64, parsed_i64,
};
use crate::errors::IssuerError;
use crate::issuance::{credential_path_of, credentials_path_prefix};
use crate::models::VerifiedPresentation;

verus! {

/// The first credential embedded in a presentation, as validating it against
/// its issuer's resolved document showed it.
#[derive(Debug, Clone)]
pub struct PresentedCredential {
    /// The credential's JWS verifies under its issuer's document (false when
    /// the issuer could not be resolved).
    pub signature_valid: bool,
    pub issuance_date: u64,
    pub expiration_date: Option<u64>,
    /// The `id` of the credential subject.
    pub subject_id: Option<String>,
    /// The path of the credential's `id` URL, if it has one.
    pub id_path: Option<String>,
}

/// What checking a presentation JWT against the holder's document showed.
#[derive(Debug, Clone)]
pub struct PresentationEvidence {
    /// The protected header could be decoded.
    pub header_decoded: bool,
    /// The header's `nonce`.
    pub header_nonce: Option<String>,
    /// The DID of the presentation's holder, as resolved.
    pub holder_did: String,
    /// The presentation's JWS verifies under the holder's document.
    pub presentation_signature_valid: bool,
    pub credential: Option<PresentedCredential>,
}

/// The characters after the last `/` of a path (all of it if there is none).
pub open spec fn last_segment(p: Seq<char>) -> Seq<char>
    decreases p.len(),
{
    if p.len() == 0 {
        p
    } else if p.last() == '/' {
        Seq::empty()
    } else {
        last_segment(p.drop_last()).push(p.last())
    }
}

/// The credential id that an `id` URL path names, if its last segment is an
/// integer.
pub open spec fn credential_id_of(path: Seq<char>) -> Option<i64> {
    parsed_i64(last_segment(path))
}

/// The presented credential is valid for `holder` at `now`: it verifies,
/// was issued no later than `now`, has not expired, and names the holder as
/// its subject.
pub open spec fn credential_accepted(c: PresentedCredential, holder: Seq<char>, now: u64) -> bool {
    &&& c.signature_valid
    &&& c.issuance_date <= now
    &&& (c.expiration_date matches Some(e) ==> now <= e)
    &&& c.subject_id matches Some(s) && s@ == holder
}

/// The last segment of `path`.
pub fn last_path_segment(path: &str) -> (r: String)
    ensures
        r@ == last_segment(path@),
{
    let n = path.unicode_len();
    let mut i: usize = n;
    assert(path@.subrange(0, n as int) =~= path@);
    assert(last_segment(path@) =~= last_segment(path@) + path@.subrange(n as int, n as int));
    while i > 0
        invariant
            i <= n,
            n == path@.len(),
            last_segment(path@) == last_segment(path@.subrange(0, i as int)) + path@.subrange(
                i as int,
                n as int,
            ),
            path@.subrange(0, n as int) == path@,
        decreases i,
    {
        let c = path.get_char(i - 1);
        let ghost pre = path@.subrange(0, i as int);
        assert(pre.drop_last() =~= path@.subrange(0, i - 1));
        assert(pre.last() == c);
        if c == '/' {
            assert(last_segment(pre) == Seq::<char>::empty());
            assert(last_segment(path@) =~= path@.subrange(i as int, n as int));
            return path.substring_char(i, n).to_owned();
        }
        assert(last_segment(pre) == last_segment(path@.subrange(0, i - 1)).push(c));
        assert(last_segment(path@) =~= last_segment(path@.subrange(0, i - 1)) + path@.subrange(
            i - 1,
            n as int,
        ));
        i = i - 1;
    }
    assert(path@.subrange(0, 0) =~= Seq::<char>::empty());
    assert(last_segment(path@) =~= path@.subrange(0, n as int));
    path.substring_char(0, n).to_owned()
}

/// Gate for actions authorised by a previously issued credential. The
/// presentation's header nonce must be a live challenge of the holder
/// (`RowNotFound`, `ChallengeExpired`), the presentation must verify
/// against it, and its first credential must verify, be within its window,
/// name the holder as subject and carry an integer id; every other failure
/// is a `MiddlewareError`.
pub fn verify_presentation_jwt(registry: &ChallengeRegistry, evidence: &PresentationEvidence, now: u64) -> (r:
    Result<VerifiedPresentation, IssuerError>)
    requires
        registry.wf(),
    ensures
        ({
            let m = registry@;
            let holder = evidence.holder_did@;
            if !evidence.header_decoded {
                r matches Err(e) && e is MiddlewareError
            } else if evidence.header_nonce is None {
                r matches Err(e) && e is ChallengeExpired
            } else if !holds_nonce(m, holder, evidence.header_nonce->0@) {
                r matches Err(e) && e is RowNotFound
            } else if !is_live(m[holder].1, now) {
                r matches Err(e) && e is ChallengeExpired
            } else if !evidence.presentation_signature_valid || evidence.credential is None
                || !credential_accepted(evidence.credential->0, holder, now)
                || evidence.credential->0.id_path is None {
                r matches Err(e) && e is MiddlewareError
            } else {
                match credential_id_of(evidence.credential->0.id_path->0@) {
                    None => r matches Err(e) && e is MiddlewareError,
                    Some(id) => r matches Ok(p) && p.vc_id == id && p.did@ == holder
                        && p.challenge@ == evidence.header_nonce->0@,
                }
            }
        }),
{
    if !evidence.header_decoded {
        return Err(IssuerError::MiddlewareError(String::from_str("JWT header not found")));
    }
    let received_nonce = match &evidence.header_nonce {
        Some(n) => n,
        None => return Err(IssuerError::ChallengeExpired),
    };
    let stored = match registry.get_challenge(&evidence.holder_did, received_nonce) {
        Ok(c) => c,
        Err(e) => return Err(e),
    };
    if now > stored.expiration {
        return Err(IssuerError::ChallengeExpired);
    }
    if !evidence.presentation_signature_valid {
        return Err(IssuerError::MiddlewareError(String::from_str("presentation validation failed")));
    }
    let credential = match &evidence.credential {
        Some(c) => c,
        None => return Err(IssuerError::MiddlewareError(String::from_str("Jwt credential not found"))),
    };
    if !credential.signature_valid || credential.issuance_date > now {
        return Err(IssuerError::MiddlewareError(String::from_str("credential validation failed")));
    }
    if let Some(e) = credential.expiration_date {
        if now > e {
            return Err(IssuerError::MiddlewareError(String::from_str("credential expired")));
        }
    }
    match &credential.subject_id {
        Some(s) => {
            if *s != evidence.holder_did {
                return Err(IssuerError::MiddlewareError(String::from_str("holder is not the subject")));
            }
        },
        None => return Err(IssuerError::MiddlewareError(String::from_str("holder is not the subject"))),
    }
    let path = match &credential.id_path {
        Some(p) => p,
        None => return Err(IssuerError::MiddlewareError(String::from_str("Credential id not found"))),
    };
    let segment = last_path_segment(path.as_str());
    match parse_i64(segment.as_str()) {
        Some(vc_id) => Ok(
            VerifiedPresentation {
                challenge: stored.challenge,
                vc_id,
                did: evidence.holder_did.clone(),
            },
        ),
        None => Err(IssuerError::MiddlewareError(String::from_str("Credential id not found"))),
    }
}

proof fn lemma_last_segment_after_slash(a: Seq<char>, b: Seq<char>)
    requires
        a.len() > 0,
        a.last() == '/',
        forall|i: int| 0 <= i < b.len() ==> b[i] != '/',
    ensures
        last_segment(a + b) == b,
    decreases b.len(),
{
    if b.len() == 0 {
        assert(a + b =~= a);
    } else {
        let s = a + b;
        assert(s.drop_last() =~= a + b.drop_last());
        assert(s.last() == b.last());
        lemma_last_segment_after_slash(a, b.drop_last());
        assert(b.drop_last().push(b.last()) =~= b);
    }
}

/// Round trip of the credential id: the id read back from the path that the
/// issuer wrote into a credential is the id the contract reserved.
pub proof fn lemma_round_trip_id(id: u64)
    requires
        id <= i64::MAX,
    ensures
        credential_id_of(credential_path_of(id)) == Some(id as i64),
{
    reveal_strlit("/api/credentials/");
    let digits = decimal_digits(id as nat);
    lemma_decimal_round_trip(id as nat);
    assert forall|i: int| 0 <= i < digits.len() implies digits[i] != '/' by {
        assert(all_dec_digits(digits));
    }
    lemma_last_segment_after_slash(credentials_path_prefix(), digits);
    assert(all_dec_digits(digits));
    assert(digits[0] != '-' && digits[0] != '+');
    assert(digits_value(digits) == id);
}

} // verus!
