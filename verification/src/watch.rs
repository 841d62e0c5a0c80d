//! The watchdog's release stamp. herdr keeps, per report source, the report
//! with the highest sequence number; the watchdog stamps its release one
//! second ahead of the moment it noticed the plugin die.

use vstd::prelude::*;

verus! {

/// The release's sequence number for a release noticed at `now_ms`
/// milliseconds since the epoch: `(now_ms + 1000) * 1000`.
pub open spec fn release_seq_spec(now_ms: nat) -> nat {
    ((now_ms + 1000) * 1000) as nat
}

/// The largest clock reading whose release stamp fits in a `u64`.
pub const MAX_RELEASE_MS: u64 = 18446744073708551;

/// Computes the release's sequence number.
pub fn release_seq(now_ms: u64) -> (seq: u64)
    requires
        now_ms <= MAX_RELEASE_MS,
    ensures
        seq == release_seq_spec(now_ms as nat),
{
    assert((now_ms + 1000) * 1000 <= u64::MAX) by (nonlinear_arith)
        requires
            now_ms <= 18446744073708551u64,
    ;
    (now_ms + 1000) * 1000
}

/// A release noticed at `now_ms` outranks exactly the stamps `t * 1000 + k`
/// (`k < 1000`) taken no later than 999 ms after it, and loses to those
/// taken later.
pub proof fn lemma_release_outranks(now_ms: nat, t: nat, k: nat)
    requires
        k < 1000,
    ensures
        t * 1000 + k < release_seq_spec(now_ms) <==> t <= now_ms + 999,
        t >= now_ms + 1000 && k > 0 ==> t * 1000 + k > release_seq_spec(now_ms),
{
    assert(t <= now_ms + 999 ==> t * 1000 + k < (now_ms + 1000) * 1000) by (nonlinear_arith)
        requires
            k < 1000,
    ;
    assert(t >= now_ms + 1000 ==> t * 1000 + k >= (now_ms + 1000) * 1000) by (nonlinear_arith);
}

/// A later release outranks an earlier one.
pub proof fn lemma_release_monotonic(a: nat, b: nat)
    requires
        a < b,
    ensures
        release_seq_spec(a) < release_seq_spec(b),
{
    assert((a + 1000) * 1000 < (b + 1000) * 1000) by (nonlinear_arith)
        requires
            a < b,
    ;
}

} // verus!
