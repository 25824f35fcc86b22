//! The round-robin dispatch rule that feeds the fixed worker pool, and
//! the pool size taken from the machine's CPU count.
//!
//! The listener owns a `Dispatcher` and asks it for a worker index per
//! accepted connection; the `k`-th connection (counting from zero) goes
//! to worker `k % pool_size`, so the load spreads as evenly as a fixed
//! rotation can: over `n` connections every worker receives either
//! `n / pool_size` or `n / pool_size + 1` of them.

use vstd::prelude::*;
use vstd::arithmetic::div_mod::{lemma_fundamental_div_mod, lemma_fundamental_div_mod_converse,
    lemma_mod_bound};

verus! {

/// Relies on num_cpus::get: the number of logical CPUs available to the
/// process, documented to always be at least 1.
#[verifier::external_body]
fn cpu_count() -> (n: usize)
    ensures
        n >= 1,
{
    num_cpus::get()
}

/// The worker-pool size fixed at startup: one worker per available CPU.
pub fn worker_pool_size() -> (n: usize)
    ensures
        n >= 1,
{
    cpu_count()
}

/// Hands out worker indices round robin. `served` counts the
/// connections assigned so far; the next one goes to worker
/// `served % pool_size`.
pub struct Dispatcher {
    next_worker: usize,
    pool_size: usize,
    served: Ghost<nat>,
}

impl Dispatcher {
    pub closed spec fn wf(self) -> bool {
        &&& self.pool_size >= 1
        &&& self.next_worker < self.pool_size
        &&& self.next_worker as nat == self.served@ % (self.pool_size as nat)
    }

    pub closed spec fn spec_pool_size(self) -> usize {
        self.pool_size
    }

    pub closed spec fn spec_served(self) -> nat {
        self.served@
    }

    pub fn new(pool_size: usize) -> (d: Dispatcher)
        requires
            pool_size >= 1,
        ensures
            d.wf(),
            d.spec_pool_size() == pool_size,
            d.spec_served() == 0,
    {
        proof {
            lemma_fundamental_div_mod_converse(0, pool_size as int, 0, 0);
        }
        Dispatcher { next_worker: 0, pool_size, served: Ghost(0) }
    }

    /// Assigns the next connection: returns the worker index it goes to
    /// and advances the rotation by one.
    pub fn assign(&mut self) -> (w: usize)
        requires
            old(self).wf(),
        ensures
            final(self).wf(),
            final(self).spec_pool_size() == old(self).spec_pool_size(),
            final(self).spec_served() == old(self).spec_served() + 1,
            w < old(self).spec_pool_size(),
            w as nat == old(self).spec_served() % (old(self).spec_pool_size() as nat),
    {
        let w = self.next_worker;
        if self.next_worker + 1 == self.pool_size {
            self.next_worker = 0;
        } else {
            self.next_worker = self.next_worker + 1;
        }
        proof {
            let s = self.served@ as int;
            let p = self.pool_size as int;
            let n = w as int;
            lemma_fundamental_div_mod(s, p);
            let q = s / p;
            assert(p * q == q * p) by (nonlinear_arith);
            if n + 1 == p {
                assert(s + 1 == (q + 1) * p + 0) by (nonlinear_arith)
                    requires
                        s == q * p + n,
                        n + 1 == p,
                ;
                lemma_fundamental_div_mod_converse(s + 1, p, q + 1, 0);
            } else {
                lemma_fundamental_div_mod_converse(s + 1, p, q, n + 1);
            }
            self.served = Ghost(self.served@ + 1);
        }
        w
    }
}

/// How many of the first `n` round-robin assignments land on worker `w`
/// in a pool of `p` workers: the number of `k < n` with `k % p == w`.
pub open spec fn rr_count(n: nat, p: nat, w: nat) -> nat
    decreases n,
{
    if n == 0 {
        0
    } else {
        rr_count((n - 1) as nat, p, w) + if (n - 1) as nat % p == w {
            1nat
        } else {
            0nat
        }
    }
}

/// The exact share of worker `w` after `n` round-robin assignments:
/// `n / p`, plus one more when `w` falls inside the leftover `n % p`.
pub proof fn lemma_rr_count_exact(n: nat, p: nat, w: nat)
    requires
        p >= 1,
        w < p,
    ensures
        rr_count(n, p, w) == n / p + if w < n % p {
            1nat
        } else {
            0nat
        },
    decreases n,
{
    if n == 0 {
        lemma_fundamental_div_mod_converse(0, p as int, 0, 0);
    } else {
        let m = (n - 1) as nat;
        lemma_rr_count_exact(m, p, w);
        lemma_fundamental_div_mod(m as int, p as int);
        lemma_mod_bound(m as int, p as int);
        let q = m as int / p as int;
        let r = m as int % p as int;
        assert((p as int) * q == q * (p as int)) by (nonlinear_arith);
        if r + 1 == p {
            assert(n as int == (q + 1) * p + 0) by (nonlinear_arith)
                requires
                    m == q * p + r,
                    r + 1 == p,
                    n == m + 1,
            ;
            lemma_fundamental_div_mod_converse(n as int, p as int, q + 1, 0);
        } else {
            lemma_fundamental_div_mod_converse(n as int, p as int, q, r + 1);
        }
    }
}

/// Dispatch fairness: over `n` connections assigned round robin to `p`
/// workers, every worker receives either `n / p` connections or one
/// more, and exactly `n / p` when `p` divides `n`.
pub proof fn lemma_round_robin_fairness(n: nat, p: nat, w: nat)
    requires
        p >= 1,
        w < p,
    ensures
        n / p <= rr_count(n, p, w) <= n / p + 1,
        n % p == 0 ==> rr_count(n, p, w) == n / p,
{
    lemma_rr_count_exact(n, p, w);
}

} // verus!
