use vstd::prelude::*;

use crate::encoding::{decode_hex, hex_decoded, remove_0x_prefix, starts_with_0x};
use crate::errors::IssuerError;

verus! {

/// The arguments of the identity contract's add-user call.
#[derive(Debug, Clone)]
pub struct AddUserCall {
    pub credential_id: u64,
    /// Unix seconds.
    pub expiration_date: u64,
    /// Unix seconds.
    pub issuance_date: u64,
    pub wallet_signature: Vec<u8>,
    pub challenge: Vec<u8>,
}

/// One log entry of a transaction receipt.
#[derive(Debug, Clone)]
pub struct LogEntry {
    pub topics: Vec<[u8; 32]>,
    pub data: Vec<u8>,
}

/// How a submitted contract call ended, as the chain client reports it.
#[derive(Debug, Clone)]
pub enum TxOutcome {
    /// Submission, confirmation or the confirmation timeout failed.
    Failed(String),
    /// The transaction was mined and confirmed; these are its receipt's logs.
    Confirmed(Vec<LogEntry>),
}

/// The result of looking for an event in a receipt.
#[derive(Debug, Clone, Copy, PartialEq, Eq, Structural)]
pub enum EventScan {
    /// Index of the first log that carries the event.
    Found(usize),
    NotFound,
}

/// A log carries the event whose signature hash is its first topic.
pub open spec fn carries_event(log: LogEntry, event: Seq<u8>) -> bool {
    log.topics@.len() > 0 && log.topics@[0]@ == event
}

pub open spec fn has_event(logs: Seq<LogEntry>, event: Seq<u8>) -> bool {
    exists|i: int| 0 <= i < logs.len() && carries_event(#[trigger] logs[i], event)
}

/// The bytes of the wallet signature that the contract stores: the text must
/// start with `0x`, and what follows is decoded as hex.
pub open spec fn wallet_signature_bytes(wallet_signature: Seq<char>) -> Option<Seq<u8>> {
    if wallet_signature.len() >= 2 && wallet_signature[0] == '0' && wallet_signature[1] == 'x' {
        hex_decoded(wallet_signature.skip(2))
    } else {
        None
    }
}

/// Prepares the add-user call: the `0x`-prefixed wallet signature is hex
/// decoded and the challenge is passed as its UTF-8 bytes.
pub fn encode_add_user(
    credential_id: u64,
    expiration_date: u64,
    issuance_date: u64,
    wallet_signature: &String,
    challenge: &String,
) -> (r: Result<AddUserCall, IssuerError>)
    ensures
        match r {
            Ok(call) => wallet_signature_bytes(wallet_signature@) == Some(call.wallet_signature@)
                && call.challenge@ == vstd::utf8::encode_utf8(challenge@) && call.credential_id
                == credential_id && call.expiration_date == expiration_date && call.issuance_date
                == issuance_date,
            Err(e) => e is OtherError && wallet_signature_bytes(wallet_signature@) is None,
        },
{
    if !starts_with_0x(wallet_signature.as_str()) {
        return Err(IssuerError::OtherError(String::from_str("Error during strip prefix")));
    }
    let stripped = remove_0x_prefix(wallet_signature.clone());
    let signature = match decode_hex(stripped.as_str()) {
        Some(b) => b,
        None => return Err(IssuerError::OtherError(String::from_str("Conversion error"))),
    };
    let challenge_bytes = challenge.as_str().as_bytes_vec();
    Ok(
        AddUserCall {
            credential_id,
            expiration_date,
            issuance_date,
            wallet_signature: signature,
            challenge: challenge_bytes,
        },
    )
}

fn hash_equal(a: &[u8; 32], b: &[u8; 32]) -> (r: bool)
    ensures
        r == (a@ == b@),
{
    let mut i: usize = 0;
    while i < 32
        invariant
            i <= 32,
            a@.len() == 32,
            b@.len() == 32,
            forall|j: int| 0 <= j < i ==> a@[j] == b@[j],
        decreases 32 - i,
    {
        if a[i] != b[i] {
            return false;
        }
        i = i + 1;
    }
    assert(a@ =~= b@);
    true
}

/// Looks for the event with signature hash `event` among the receipt's logs.
pub fn find_event(logs: &Vec<LogEntry>, event: &[u8; 32]) -> (r: EventScan)
    ensures
        match r {
            EventScan::Found(i) => i < logs@.len() && carries_event(logs@[i as int], event@)
                && forall|j: int| 0 <= j < i ==> !carries_event(#[trigger] logs@[j], event@),
            EventScan::NotFound => !has_event(logs@, event@),
        },
{
    let mut i: usize = 0;
    while i < logs.len()
        invariant
            i <= logs@.len(),
            forall|j: int| 0 <= j < i ==> !carries_event(#[trigger] logs@[j], event@),
        decreases logs@.len() - i,
    {
        let log = &logs[i];
        if log.topics.len() > 0 && hash_equal(&log.topics[0], event) {
            return EventScan::Found(i);
        }
        i = i + 1;
    }
    EventScan::NotFound
}

/// Decides a submitted call: a transport or confirmation failure is a
/// `ContractError`; a confirmed receipt without the expected event is
/// `EventNotFound`, never a success.
pub fn confirm_event(outcome: TxOutcome, event: &[u8; 32]) -> (r: Result<(), IssuerError>)
    ensures
        match outcome {
            TxOutcome::Failed(detail) => r matches Err(IssuerError::ContractError(d)) && d@
                == detail@,
            TxOutcome::Confirmed(logs) => if has_event(logs@, event@) {
                r is Ok
            } else {
                r matches Err(e) && e is EventNotFound
            },
        },
{
    match outcome {
        TxOutcome::Failed(detail) => Err(IssuerError::ContractError(detail)),
        TxOutcome::Confirmed(logs) => match find_event(&logs, event) {
            EventScan::Found(_) => Ok(()),
            EventScan::NotFound => Err(IssuerError::EventNotFound),
        },
    }
}

} // verus!
