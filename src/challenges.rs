use vstd::prelude::*;

use crate::errors::IssuerError;
use crate::models::HolderChallenge;

verus! {

/// How long a freshly issued challenge stays valid, in seconds.
pub const CHALLENGE_TTL_SECS: u64 = 60;

/// What the registry holds for one holder: the nonce and its expiration.
pub type Slot = (Seq<char>, u64);

/// A challenge is live up to and including its expiration second.
pub open spec fn is_live(expiration: u64, now: u64) -> bool {
    now <= expiration
}

/// The holder `did` has a challenge that is still live at `now`.
pub open spec fn has_live_challenge(m: Map<Seq<char>, Slot>, did: Seq<char>, now: u64) -> bool {
    m.contains_key(did) && is_live(m[did].1, now)
}

/// The registry after a successful issue of `nonce` to `did` at `now`.
pub open spec fn issued(m: Map<Seq<char>, Slot>, did: Seq<char>, nonce: Seq<char>, now: u64) -> Map<
    Seq<char>,
    Slot,
> {
    m.insert(did, (nonce, (now + CHALLENGE_TTL_SECS) as u64))
}

/// The slots of `m` that are still live at `now`.
pub open spec fn live_slots(m: Map<Seq<char>, Slot>, now: u64) -> Map<Seq<char>, Slot> {
    Map::new(|d: Seq<char>| m.contains_key(d) && is_live(m[d].1, now), |d: Seq<char>| m[d])
}

/// `did` holds exactly `nonce` in `m`.
pub open spec fn holds_nonce(m: Map<Seq<char>, Slot>, did: Seq<char>, nonce: Seq<char>) -> bool {
    m.contains_key(did) && m[did].0 == nonce
}

pub open spec fn unique_holders(s: Seq<HolderChallenge>) -> bool {
    forall|i: int, j: int|
        0 <= i < s.len() && 0 <= j < s.len() && i != j ==> s[i].did_holder@ != s[j].did_holder@
}

pub open spec fn has_row(s: Seq<HolderChallenge>, d: Seq<char>) -> bool {
    exists|i: int| 0 <= i < s.len() && s[i].did_holder@ == d
}

/// The slot map that a sequence of rows stands for.
pub open spec fn rows_map(s: Seq<HolderChallenge>) -> Map<Seq<char>, Slot> {
    Map::new(
        |d: Seq<char>| has_row(s, d),
        |d: Seq<char>|
            {
                let i = choose|i: int| 0 <= i < s.len() && s[i].did_holder@ == d;
                (s[i].challenge@, s[i].expiration)
            },
    )
}

proof fn lemma_row_slot(s: Seq<HolderChallenge>, k: int)
    requires
        unique_holders(s),
        0 <= k < s.len(),
    ensures
        rows_map(s).contains_key(s[k].did_holder@),
        rows_map(s)[s[k].did_holder@] == (s[k].challenge@, s[k].expiration),
{
    let d = s[k].did_holder@;
    assert(has_row(s, d));
    let i = choose|i: int| 0 <= i < s.len() && s[i].did_holder@ == d;
    assert(i == k);
}

proof fn lemma_rows_remove(s: Seq<HolderChallenge>, k: int)
    requires
        unique_holders(s),
        0 <= k < s.len(),
    ensures
        unique_holders(s.remove(k)),
        rows_map(s.remove(k)) == rows_map(s).remove(s[k].did_holder@),
{
    let t = s.remove(k);
    let dk = s[k].did_holder@;
    assert forall|i: int| 0 <= i < t.len() implies #[trigger] t[i] == s[if i < k { i } else { i + 1 }] by {}
    assert(unique_holders(t)) by {
        assert forall|i: int, j: int|
            0 <= i < t.len() && 0 <= j < t.len() && i != j implies t[i].did_holder@
            != t[j].did_holder@ by {
            assert(t[i] == s[if i < k { i } else { i + 1 }]);
            assert(t[j] == s[if j < k { j } else { j + 1 }]);
        }
    }
    let a = rows_map(t);
    let b = rows_map(s).remove(dk);
    assert forall|d: Seq<char>| #[trigger] a.contains_key(d) == b.contains_key(d) by {
        if has_row(t, d) {
            let i = choose|i: int| 0 <= i < t.len() && t[i].did_holder@ == d;
            let ii = if i < k { i } else { i + 1 };
            assert(t[i] == s[ii]);
            assert(has_row(s, d));
        }
        if has_row(s, d) && d != dk {
            let j = choose|j: int| 0 <= j < s.len() && s[j].did_holder@ == d;
            assert(j != k);
            let jj = if j < k { j } else { j - 1 };
            assert(t[jj] == s[j]);
            assert(has_row(t, d));
        }
    }
    assert forall|d: Seq<char>| #[trigger] a.contains_key(d) implies a[d] == b[d] by {
        let i = choose|i: int| 0 <= i < t.len() && t[i].did_holder@ == d;
        let ii = if i < k { i } else { i + 1 };
        assert(t[i] == s[ii]);
        lemma_row_slot(t, i);
        lemma_row_slot(s, ii);
    }
    assert(a =~= b);
}

proof fn lemma_rows_push(s: Seq<HolderChallenge>, c: HolderChallenge)
    requires
        unique_holders(s),
        !has_row(s, c.did_holder@),
    ensures
        unique_holders(s.push(c)),
        rows_map(s.push(c)) == rows_map(s).insert(c.did_holder@, (c.challenge@, c.expiration)),
{
    let t = s.push(c);
    assert forall|i: int| 0 <= i < s.len() implies #[trigger] t[i] == s[i] by {}
    assert(unique_holders(t)) by {
        assert forall|i: int, j: int|
            0 <= i < t.len() && 0 <= j < t.len() && i != j implies t[i].did_holder@
            != t[j].did_holder@ by {
            if i == s.len() {
                assert(t[j] == s[j]);
            } else if j == s.len() {
                assert(t[i] == s[i]);
            } else {
                assert(t[i] == s[i]);
                assert(t[j] == s[j]);
            }
        }
    }
    let a = rows_map(t);
    let b = rows_map(s).insert(c.did_holder@, (c.challenge@, c.expiration));
    assert forall|d: Seq<char>| #[trigger] a.contains_key(d) == b.contains_key(d) by {
        if has_row(t, d) && d != c.did_holder@ {
            let i = choose|i: int| 0 <= i < t.len() && t[i].did_holder@ == d;
            assert(i != s.len());
            assert(t[i] == s[i]);
            assert(has_row(s, d));
        }
        if has_row(s, d) {
            let j = choose|j: int| 0 <= j < s.len() && s[j].did_holder@ == d;
            assert(t[j] == s[j]);
            assert(has_row(t, d));
        }
        if d == c.did_holder@ {
            assert(t[s.len() as int] == c);
            assert(has_row(t, d));
        }
    }
    assert forall|d: Seq<char>| #[trigger] a.contains_key(d) implies a[d] == b[d] by {
        let i = choose|i: int| 0 <= i < t.len() && t[i].did_holder@ == d;
        lemma_row_slot(t, i);
        if i < s.len() {
            assert(t[i] == s[i]);
            lemma_row_slot(s, i);
        } else {
            assert(t[i] == c);
        }
    }
    assert(a =~= b);
}

/// The challenges table: at most one row per holder DID.
pub struct ChallengeRegistry {
    rows: Vec<HolderChallenge>,
}

impl View for ChallengeRegistry {
    type V = Map<Seq<char>, Slot>;

    closed spec fn view(&self) -> Map<Seq<char>, Slot> {
        rows_map(self.rows@)
    }
}

impl ChallengeRegistry {
    /// Well-formed: no two rows share a holder DID.
    pub closed spec fn wf(&self) -> bool {
        unique_holders(self.rows@)
    }

    pub fn new() -> (r: ChallengeRegistry)
        ensures
            r.wf(),
            r@ == Map::<Seq<char>, Slot>::empty(),
    {
        let r = ChallengeRegistry { rows: Vec::new() };
        assert(r@ =~= Map::<Seq<char>, Slot>::empty());
        r
    }

    /// Number of stored challenges.
    pub fn len(&self) -> (n: usize)
        requires
            self.wf(),
        ensures
            n == self@.len(),
    {
        proof {
            self.lemma_len();
        }
        self.rows.len()
    }

    proof fn lemma_len(&self)
        requires
            self.wf(),
        ensures
            self@.dom().finite(),
            self@.len() == self.rows@.len(),
    {
        lemma_seq_len_map(self.rows@);
    }

    /// Index of the row of `did`, if any.
    fn find(&self, did: &String) -> (r: Option<usize>)
        requires
            self.wf(),
        ensures
            match r {
                Some(k) => k < self.rows@.len() && self.rows@[k as int].did_holder@ == did@,
                None => !self@.contains_key(did@),
            },
    {
        let mut i: usize = 0;
        while i < self.rows.len()
            invariant
                i <= self.rows@.len(),
                forall|j: int| 0 <= j < i ==> self.rows@[j].did_holder@ != did@,
            decreases self.rows@.len() - i,
        {
            if self.rows[i].did_holder == *did {
                return Some(i);
            }
            i = i + 1;
        }
        None
    }

    /// The challenge stored for `did`, whatever its nonce.
    pub fn get_holder_request(&self, did: &String) -> (r: Result<HolderChallenge, IssuerError>)
        requires
            self.wf(),
        ensures
            match r {
                Ok(c) => self@.contains_key(did@) && c.did_holder@ == did@ && (c.challenge@, c.expiration)
                    == self@[did@],
                Err(e) => e is RowNotFound && !self@.contains_key(did@),
            },
    {
        match self.find(did) {
            Some(k) => {
                proof {
                    lemma_row_slot(self.rows@, k as int);
                }
                Ok(self.rows[k].clone_row())
            },
            None => Err(IssuerError::RowNotFound),
        }
    }

    /// The challenge stored for `did` if it carries exactly `nonce`.
    pub fn get_challenge(&self, did: &String, nonce: &String) -> (r: Result<HolderChallenge, IssuerError>)
        requires
            self.wf(),
        ensures
            match r {
                Ok(c) => holds_nonce(self@, did@, nonce@) && c.did_holder@ == did@ && c.challenge@
                    == nonce@ && c.expiration == self@[did@].1,
                Err(e) => e is RowNotFound && !holds_nonce(self@, did@, nonce@),
            },
    {
        match self.find(did) {
            Some(k) => {
                proof {
                    lemma_row_slot(self.rows@, k as int);
                }
                if self.rows[k].challenge == *nonce {
                    Ok(self.rows[k].clone_row())
                } else {
                    Err(IssuerError::RowNotFound)
                }
            },
            None => Err(IssuerError::RowNotFound),
        }
    }

    /// Stores `c` unless its holder already has a row: the insert and the
    /// uniqueness check are one step.
    pub fn insert_challenge(&mut self, c: HolderChallenge) -> (r: Result<
        HolderChallenge,
        IssuerError,
    >)
        requires
            old(self).wf(),
        ensures
            final(self).wf(),
            match r {
                Ok(stored) => !old(self)@.contains_key(c.did_holder@) && final(self)@ == old(
                    self,
                )@.insert(c.did_holder@, (c.challenge@, c.expiration)) && stored.did_holder@
                    == c.did_holder@ && stored.challenge@ == c.challenge@ && stored.expiration
                    == c.expiration,
                Err(e) => e is ChallengePendingError && old(self)@.contains_key(c.did_holder@)
                    && final(self)@ == old(self)@,
            },
    {
        match self.find(&c.did_holder) {
            Some(k) => {
                proof {
                    lemma_row_slot(self.rows@, k as int);
                }
                Err(IssuerError::ChallengePendingError)
            },
            None => {
                let stored = c.clone_row();
                proof {
                    lemma_rows_push(self.rows@, c);
                }
                self.rows.push(c);
                Ok(stored)
            },
        }
    }

    /// Deletes the row of `did`; nothing happens if there is none.
    pub fn remove_challenge(&mut self, did: &String)
        requires
            old(self).wf(),
        ensures
            final(self).wf(),
            final(self)@ == old(self)@.remove(did@),
    {
        match self.find(did) {
            Some(k) => {
                proof {
                    lemma_rows_remove(self.rows@, k as int);
                }
                self.rows.remove(k);
            },
            None => {
                assert(self@ =~= self@.remove(did@));
            },
        }
    }

    /// Deletes every row whose expiration has passed at `now`.
    pub fn cleanup_challenges(&mut self, now: u64)
        requires
            old(self).wf(),
        ensures
            final(self).wf(),
            final(self)@ == live_slots(old(self)@, now),
    {
        let ghost orig = self@;
        let mut i: usize = 0;
        while i < self.rows.len()
            invariant
                self.wf(),
                i <= self.rows@.len(),
                forall|j: int| 0 <= j < i ==> is_live(#[trigger] self.rows@[j].expiration, now),
                forall|d: Seq<char>| #[trigger]
                    self@.contains_key(d) ==> orig.contains_key(d) && self@[d] == orig[d],
                forall|d: Seq<char>|
                    #[trigger] orig.contains_key(d) && is_live(orig[d].1, now) ==> self@.contains_key(
                        d,
                    ),
            decreases self.rows@.len() - i,
        {
            if self.rows[i].expiration < now {
                proof {
                    lemma_row_slot(self.rows@, i as int);
                    lemma_rows_remove(self.rows@, i as int);
                }
                let ghost before = self.rows@;
                let ghost before_map = self@;
                self.rows.remove(i);
                assert(self@ == before_map.remove(before[i as int].did_holder@));
                assert forall|d: Seq<char>| #[trigger] self@.contains_key(d) implies orig.contains_key(d)
                    && self@[d] == orig[d] by {
                    assert(before_map.contains_key(d));
                }
                assert forall|j: int| 0 <= j < i implies is_live(
                    #[trigger] self.rows@[j].expiration,
                    now,
                ) by {
                    assert(self.rows@[j] == before[j]);
                }
            } else {
                i = i + 1;
            }
        }
        let ghost m = live_slots(orig, now);
        assert forall|d: Seq<char>| #[trigger] self@.contains_key(d) implies m.contains_key(d) by {
            let k = choose|k: int| 0 <= k < self.rows@.len() && self.rows@[k].did_holder@ == d;
            lemma_row_slot(self.rows@, k);
            assert(is_live(self.rows@[k].expiration, now));
        }
        assert(self@ =~= m);
    }
}

proof fn lemma_seq_len_map(t: Seq<HolderChallenge>)
    requires
        unique_holders(t),
    ensures
        rows_map(t).dom().finite(),
        rows_map(t).len() == t.len(),
    decreases t.len(),
{
    if t.len() == 0 {
        assert(rows_map(t).dom() =~= Set::<Seq<char>>::empty());
    } else {
        let k = t.len() - 1;
        lemma_rows_remove(t, k);
        assert(t.remove(k) =~= t.drop_last());
        lemma_seq_len_map(t.drop_last());
        lemma_row_slot(t, k);
        assert(rows_map(t).dom() =~= rows_map(t.drop_last()).dom().insert(t[k].did_holder@));
    }
}

impl HolderChallenge {
    /// A field-by-field copy.
    pub fn clone_row(&self) -> (r: HolderChallenge)
        ensures
            r == *self,
    {
        HolderChallenge {
            did_holder: self.did_holder.clone(),
            challenge: self.challenge.clone(),
            expiration: self.expiration,
        }
    }
}

/// Relies on uuid's `Uuid::new_v4` and its `Display` impl: a random version-4
/// UUID written in its 36-character hyphenated form.
#[verifier::external_body]
fn fresh_nonce() -> (r: String)
    ensures
        r@.len() == 36,
{
    uuid::Uuid::new_v4().to_string()
}

/// Clears an expired challenge of `did` so that a new one can be issued.
/// Fails with `RowNotFound` when there is none, and with
/// `ChallengePendingError` when it is still live; both leave the registry as
/// it was.
pub fn check_and_clean_holder_requests(registry: &mut ChallengeRegistry, did: &String, now: u64) -> (r:
    Result<(), IssuerError>)
    requires
        old(registry).wf(),
    ensures
        final(registry).wf(),
        match r {
            Ok(()) => old(registry)@.contains_key(did@) && !is_live(old(registry)@[did@].1, now)
                && final(registry)@ == old(registry)@.remove(did@),
            Err(e) => final(registry)@ == old(registry)@ && (
                (e is RowNotFound && !old(registry)@.contains_key(did@))
                || (e is ChallengePendingError && has_live_challenge(old(registry)@, did@, now))
            ),
        },
{
    match registry.get_holder_request(did) {
        Ok(holder_request) => {
            if holder_request.expiration < now {
                registry.remove_challenge(did);
                Ok(())
            } else {
                Err(IssuerError::ChallengePendingError)
            }
        },
        Err(e) => Err(e),
    }
}

/// Issues `nonce` to `did` at `now`, unless `did` still has a live challenge.
/// An expired challenge is replaced.
pub fn issue_challenge(registry: &mut ChallengeRegistry, did: &String, nonce: String, now: u64) -> (r:
    Result<String, IssuerError>)
    requires
        old(registry).wf(),
        now + CHALLENGE_TTL_SECS <= u64::MAX,
    ensures
        final(registry).wf(),
        match r {
            Ok(n) => !has_live_challenge(old(registry)@, did@, now) && n@ == nonce@
                && final(registry)@ == issued(old(registry)@, did@, nonce@, now),
            Err(e) => e is ChallengePendingError && has_live_challenge(old(registry)@, did@, now)
                && final(registry)@ == old(registry)@,
        },
{
    let ghost before = registry@;
    match check_and_clean_holder_requests(registry, did, now) {
        Err(IssuerError::ChallengePendingError) => Err(IssuerError::ChallengePendingError),
        _ => {
            let ghost cleared = registry@;
            assert(!cleared.contains_key(did@));
            let row = HolderChallenge {
                did_holder: did.clone(),
                challenge: nonce.clone(),
                expiration: now + CHALLENGE_TTL_SECS,
            };
            match registry.insert_challenge(row) {
                Ok(_) => {
                    assert(registry@ =~= issued(before, did@, nonce@, now));
                    Ok(nonce)
                },
                Err(e) => Err(e),
            }
        },
    }
}

/// Answers a challenge request: a fresh random nonce, stored for `did` with
/// an expiration `CHALLENGE_TTL_SECS` after `now`, unless `did` still has a
/// live challenge.
pub fn get_challenge_service(registry: &mut ChallengeRegistry, did: &String, now: u64) -> (r: Result<
    String,
    IssuerError,
>)
    requires
        old(registry).wf(),
        now + CHALLENGE_TTL_SECS <= u64::MAX,
    ensures
        final(registry).wf(),
        match r {
            Ok(n) => !has_live_challenge(old(registry)@, did@, now) && n@.len() == 36
                && final(registry)@ == issued(old(registry)@, did@, n@, now),
            Err(e) => e is ChallengePendingError && has_live_challenge(old(registry)@, did@, now)
                && final(registry)@ == old(registry)@,
        },
{
    let nonce = fresh_nonce();
    issue_challenge(registry, did, nonce, now)
}

/// At most one pending challenge per holder: once a challenge has been issued
/// at `now`, a second request at any moment up to its expiration finds it
/// live, so `issue_challenge` refuses it with `ChallengePendingError`.
pub proof fn lemma_at_most_one_pending(
    m: Map<Seq<char>, Slot>,
    did: Seq<char>,
    nonce: Seq<char>,
    now: u64,
    later: u64,
)
    requires
        now + CHALLENGE_TTL_SECS <= u64::MAX,
        now <= later <= now + CHALLENGE_TTL_SECS,
    ensures
        has_live_challenge(issued(m, did, nonce, now), did, later),
{
}

/// Expiry releases the slot: once `now` is past the stored expiration, the
/// holder has no live challenge, so a new request succeeds; afterwards the
/// new nonce is on file and the old one no longer matches (for a fresh nonce
/// that differs from the old one).
pub proof fn lemma_expiry_releases_slot(
    m: Map<Seq<char>, Slot>,
    did: Seq<char>,
    nonce: Seq<char>,
    now: u64,
)
    requires
        m.contains_key(did),
        m[did].1 < now,
        nonce != m[did].0,
    ensures
        !has_live_challenge(m, did, now),
        holds_nonce(issued(m, did, nonce, now), did, nonce),
        !holds_nonce(issued(m, did, nonce, now), did, m[did].0),
{
}

} // verus!
