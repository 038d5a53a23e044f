//! The fail-delay helper: remembers the largest delay a module asked for and
//! turns it into a pseudo-randomized duration between 50% and 150% of that
//! base, so that failed attempts cost an unpredictable amount of time.

use vstd::prelude::*;
use crate::session::UtpamBoolean;

verus! {

#[verifier::external_type_specification]
#[verifier::external_body]
pub struct ExStdRng(rand::rngs::StdRng);

/// Relies on rand's SeedableRng::seed_from_u64: builds a generator from the
/// seed alone.
#[verifier::external_body]
fn rng_from_seed(seed: u64) -> rand::rngs::StdRng {
    <rand::rngs::StdRng as rand::SeedableRng>::seed_from_u64(seed)
}

/// Relies on rand's Rng::gen: hands back some 64-bit value; nothing is
/// promised of it.
#[verifier::external_body]
fn rng_next_u64(rng: &mut rand::rngs::StdRng) -> u64 {
    rand::Rng::gen::<u64>(rng)
}

/// The sample a raw draw contributes: its tenth, reduced below one
/// million.
pub open spec fn spec_delay_sample(x: u64) -> int {
    ((x as int) / 10) % 1000000
}

/// The samples of a draw sequence, summed.
pub open spec fn spec_delay_sample_sum(draws: Seq<u64>) -> int
    decreases draws.len(),
{
    if draws.len() == 0 {
        0
    } else {
        spec_delay_sample_sum(draws.drop_last()) + spec_delay_sample(draws.last())
    }
}

/// The delay the three draws impose on `base`: half the base plus the
/// averaged samples' share, saturating at the largest representable value —
/// between 50% and 150% of the base.
pub open spec fn spec_delay_of(base: u64, draws: Seq<u64>) -> int {
    let scaled = (base as int) * (500000 + spec_delay_sample_sum(draws) / 3) / 1000000;
    if scaled > u64::MAX as int {
        u64::MAX as int
    } else {
        scaled
    }
}

/// The timing-obfuscation state: whether a delay was requested, the largest
/// requested delay in microseconds, and when the operation began.
pub struct UtpamFailDelay {
    pub set: UtpamBoolean,
    pub delay: u64,
    pub begin_usec: u64,
}

impl UtpamFailDelay {
    /// A cleared fail-delay state.
    pub fn new() -> (r: Self)
        ensures
            r.set is UtpamFalse,
            r.delay == 0,
            r.begin_usec == 0,
    {
        UtpamFailDelay { set: UtpamBoolean::UtpamFalse, delay: 0, begin_usec: 0 }
    }

    /// Forget that a delay was ever requested.
    pub fn utpam_reset_timer(&mut self)
        ensures
            final(self).set is UtpamFalse,
            final(self).delay == old(self).delay,
            final(self).begin_usec == old(self).begin_usec,
    {
        self.set = UtpamBoolean::UtpamFalse;
    }

    /// Record when the current operation began, as microseconds since some
    /// fixed epoch chosen by the caller.
    pub fn utpam_start_timer(&mut self, now_usec: u64)
        ensures
            final(self).begin_usec == now_usec,
            final(self).set == old(self).set,
            final(self).delay == old(self).delay,
    {
        self.begin_usec = now_usec;
    }

    /// Keep the largest delay requested during this operation.
    pub fn utpam_set_delay(&mut self, usec: u64)
        ensures
            final(self).set is UtpamTrue,
            final(self).delay == if old(self).set is UtpamTrue {
                if old(self).delay < usec {
                    usec
                } else {
                    old(self).delay
                }
            } else {
                usec
            },
            final(self).begin_usec == old(self).begin_usec,
    {
        if !self.set.to_bool() {
            self.set = UtpamBoolean::UtpamTrue;
            self.delay = 0;
        }
        if self.delay < usec {
            self.delay = usec;
        }
    }

    /// Compute the delay to impose: the base scaled by a pseudo-random
    /// factor drawn from a generator seeded with `seed`, always between 50%
    /// and 150% of the base.  The returned ghost sequence holds the three
    /// raw draws; the result is exactly [`spec_delay_of`] applied to them.
    pub fn utpam_compute_delay(&self, seed: u64, base: u64) -> (r: (u64, Ghost<Seq<u64>>))
        ensures
            r.1@.len() == 3,
            r.0 == spec_delay_of(base, r.1@),
            base / 2 <= r.0 <= base + base / 2,
    {
        let mut rng = rng_from_seed(seed);
        let mut sum: u64 = 0;
        let mut k: usize = 0;
        let ghost mut draws: Seq<u64> = Seq::empty();
        while k < 3
            invariant
                k <= 3,
                sum <= k * 999999,
                draws.len() == k,
                sum == spec_delay_sample_sum(draws),
            decreases 3 - k,
        {
            let x = rng_next_u64(&mut rng);
            sum = sum + (x / 10) % 1000000;
            proof {
                let d0 = draws;
                draws = draws.push(x);
                assert(draws.drop_last() =~= d0);
                assert(draws.last() == x);
            }
            k = k + 1;
        }
        // The scaled base, ranging from 50% to just under 150%.
        let factor: u64 = 500000 + sum / 3;
        proof {
            assert(500000 <= factor <= 1499999);
        }
        proof {
            assert((base as u128) * (factor as u128) <= (u64::MAX as u128) * 1500000u128)
                by (nonlinear_arith)
                requires
                    base <= u64::MAX,
                    factor <= 1499999,
            ;
        }
        let wide: u128 = (base as u128) * (factor as u128);
        let scaled: u128 = wide / 1000000;
        let r: u64 = if scaled > u64::MAX as u128 {
            u64::MAX
        } else {
            scaled as u64
        };
        proof {
            assert((base as u128) * 500000 <= wide <= (base as u128) * 1499999) by (nonlinear_arith)
                requires
                    500000 <= factor <= 1499999,
                    wide == (base as u128) * (factor as u128),
            ;
            assert(scaled >= (base as u128) * 500000 / 1000000);
            assert((base as u128) * 500000 / 1000000 >= base as u128 / 2) by (nonlinear_arith);
            assert(scaled <= (base as u128) * 1499999 / 1000000);
            assert((base as u128) * 1499999 / 1000000 <= base as u128 + base as u128 / 2)
                by (nonlinear_arith);
            if scaled > u64::MAX as u128 {
                assert(base as u128 + base as u128 / 2 >= scaled);
            }
            assert(r == spec_delay_of(base, draws));
        }
        (r, Ghost(draws))
    }
}

impl Default for UtpamFailDelay {
    /// The cleared state.
    fn default() -> (r: Self)
        ensures
            r.set is UtpamFalse,
            r.delay == 0,
            r.begin_usec == 0,
    {
        Self::new()
    }
}

/// Whether — and for how long — the caller must block after an operation:
/// only a failed operation with a requested delay sleeps, and then for
/// exactly the computed duration.
pub fn utpam_await_decision(fail_delay: &UtpamFailDelay, status: u8, computed: u64) -> (r: Option<
    u64,
>)
    ensures
        r == if status != crate::codes::PAM_SUCCESS && fail_delay.set is UtpamTrue && computed > 0 {
            Some(computed)
        } else {
            None::<u64>
        },
{
    if status != crate::codes::PAM_SUCCESS && fail_delay.set.to_bool() && computed > 0 {
        Some(computed)
    } else {
        None
    }
}

/// Record a module's requested fail delay on the session: the largest
/// request of the current operation wins.
pub fn utpam_fail_delay<M, D>(utpamh: &mut crate::session::UtpamHandle<M, D>, usec: u64) -> (r: u8)
    ensures
        r == crate::codes::PAM_SUCCESS,
        final(utpamh).fail_delay.set is UtpamTrue,
        final(utpamh).fail_delay.delay == if old(utpamh).fail_delay.set is UtpamTrue {
            if old(utpamh).fail_delay.delay < usec {
                usec
            } else {
                old(utpamh).fail_delay.delay
            }
        } else {
            usec
        },
        *final(utpamh) == (crate::session::UtpamHandle {
            fail_delay: final(utpamh).fail_delay,
            ..*old(utpamh)
        }),
{
    utpamh.fail_delay.utpam_set_delay(usec);
    crate::codes::PAM_SUCCESS
}

} // verus!
