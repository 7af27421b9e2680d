use vstd::prelude::*;

verus! {

/// Length of a locally issued connection identifier: the largest QUIC allows.
pub const CONN_ID_LEN: usize = 20;

/// Length of a stateless reset token.
pub const RESET_TOKEN_LEN: usize = 16;

/// `256^k`.
pub open spec fn pow256(k: nat) -> nat
    decreases k,
{
    if k == 0 {
        1
    } else {
        256 * pow256((k - 1) as nat)
    }
}

/// The unsigned integer that `s` spells in big-endian order.
pub open spec fn be_value(s: Seq<u8>) -> nat
    decreases s.len(),
{
    if s.len() == 0 {
        0
    } else {
        be_value(s.drop_last()) * 256 + s.last() as nat
    }
}

proof fn lemma_be_value_bound(s: Seq<u8>)
    ensures
        be_value(s) < pow256(s.len()),
    decreases s.len(),
{
    if s.len() > 0 {
        lemma_be_value_bound(s.drop_last());
    }
}

proof fn lemma_pow256_mono(a: nat, b: nat)
    requires
        a <= b,
    ensures
        pow256(a) <= pow256(b),
    decreases b,
{
    if a < b {
        lemma_pow256_mono(a, (b - 1) as nat);
    }
}

/// Reads a reset token from its sixteen bytes, most significant first.
pub fn reset_token_from_bytes(b: &[u8]) -> (r: u128)
    requires
        b@.len() == RESET_TOKEN_LEN,
    ensures
        r == be_value(b@),
{
    let mut r: u128 = 0;
    let mut i: usize = 0;
    assert(pow256(16) == 0x1_0000_0000_0000_0000_0000_0000_0000_0000) by {
        reveal_with_fuel(pow256, 17);
    }
    while i < b.len()
        invariant
            b@.len() == 16,
            i <= 16,
            r == be_value(b@.subrange(0, i as int)),
            pow256(16) == 0x1_0000_0000_0000_0000_0000_0000_0000_0000,
        decreases 16 - i,
    {
        let ghost prefix = b@.subrange(0, i as int);
        proof {
            lemma_be_value_bound(prefix);
            lemma_pow256_mono((i + 1) as nat, 16);
        }
        let ghost next = b@.subrange(0, i + 1);
        assert(next.drop_last() =~= prefix);
        r = r * 256 + b[i] as u128;
        i = i + 1;
    }
    assert(b@.subrange(0, 16) =~= b@);
    r
}

/// Relies on ring's `SystemRandom::fill`, the operating system's
/// cryptographically strong generator: on success the result has the
/// requested length; nothing is promised of its bytes.
#[verifier::external_body]
fn random_bytes(len: usize) -> (r: Option<Vec<u8>>)
    ensures
        r matches Some(v) ==> v@.len() == len,
{
    let mut v = vec![0u8; len];
    ring::rand::SecureRandom::fill(&ring::rand::SystemRandom::new(), &mut v).ok().map(|_| v)
}

/// A fresh random connection identifier of `CONN_ID_LEN` bytes and the reset
/// token that goes with it, or `None` when the random source failed.
pub fn generate_cid_and_reset_token() -> (r: Option<(Vec<u8>, u128)>)
    ensures
        r matches Some(p) ==> p.0@.len() == CONN_ID_LEN,
{
    match random_bytes(CONN_ID_LEN) {
        None => None,
        Some(cid) => match random_bytes(RESET_TOKEN_LEN) {
            None => None,
            Some(token) => Some((cid, reset_token_from_bytes(token.as_slice()))),
        },
    }
}

/// Whether a round may register one more identifier: it has not stopped on a
/// refusal and the engine still reports spare quota.
pub open spec fn may_issue(stopped: bool, scids_left: nat) -> bool {
    !stopped && scids_left > 0
}

/// One activation of connection-identifier issuance. The caller asks
/// `should_issue` with the quota the engine reports, registers a fresh
/// identifier when told to, and reports the engine's answer to `record`.
/// A refusal ends the round; the next activation starts a new one.
pub struct CidRound {
    pub issued: u64,
    pub stopped: bool,
}

impl CidRound {
    pub fn start() -> (r: CidRound)
        ensures
            r.issued == 0,
            !r.stopped,
    {
        CidRound { issued: 0, stopped: false }
    }

    pub fn should_issue(&self, scids_left: u64) -> (r: bool)
        ensures
            r == may_issue(self.stopped, scids_left as nat),
    {
        !self.stopped && scids_left > 0
    }

    /// Records whether the engine accepted the identifier just offered.
    pub fn record(&mut self, accepted: bool)
        requires
            old(self).issued < u64::MAX,
        ensures
            final(self).issued == old(self).issued + if accepted { 1int } else { 0int },
            final(self).stopped == (old(self).stopped || !accepted),
    {
        if accepted {
            self.issued = self.issued + 1;
        } else {
            self.stopped = true;
        }
    }
}

/// State of a round after the engine gave `answers` to the offers it was
/// asked for, starting from a quota of `quota`, when the engine takes one unit
/// of quota for each identifier it accepts: (quota left, issued, stopped).
pub open spec fn round_after(quota: nat, answers: Seq<bool>) -> (nat, nat, bool)
    decreases answers.len(),
{
    if answers.len() == 0 {
        (quota, 0, false)
    } else {
        let (left, issued, stopped) = round_after(quota, answers.drop_last());
        if may_issue(stopped, left) {
            if answers.last() {
                ((left - 1) as nat, issued + 1, stopped)
            } else {
                (left, issued, true)
            }
        } else {
            (left, issued, stopped)
        }
    }
}

/// Issuance never exceeds the quota: whatever the engine answers, what was
/// issued plus what is left is the quota the round started from, and once the
/// quota reaches zero no further identifier is offered in that round.
pub proof fn lemma_issuance_within_quota(quota: nat, answers: Seq<bool>)
    ensures
        round_after(quota, answers).0 + round_after(quota, answers).1 == quota,
        round_after(quota, answers).1 <= quota,
        round_after(quota, answers).0 == 0 ==> !may_issue(
            round_after(quota, answers).2,
            round_after(quota, answers).0,
        ),
    decreases answers.len(),
{
    if answers.len() > 0 {
        lemma_issuance_within_quota(quota, answers.drop_last());
    }
}

} // verus!
