//! Decimates rows before they are forwarded to another dispatcher.

use vstd::prelude::*;

verus! {

/// Forwards every Nth row.
#[derive(Debug)]
pub struct DecimationDispatcher {
    pub nth: usize,
    pub remaining: usize,
    pub initialized: bool,
}

impl DecimationDispatcher {
    /// The factor is positive.
    pub open spec fn wf(self) -> bool {
        self.nth > 0
    }

    /// A decimation that forwards every `nth` row.
    pub fn new(nth: usize) -> (r: Self)
        requires
            nth > 0,
        ensures
            r.wf(),
            r.nth == nth,
            r.remaining == 0,
            !r.initialized,
    {
        DecimationDispatcher { nth, remaining: 0, initialized: false }
    }

    /// Starts a run. `ok` says whether the dispatcher behind it could start.
    pub fn init(&mut self, ok: bool)
        ensures
            final(self).nth == old(self).nth,
            final(self).remaining == 0,
            final(self).initialized == ok,
    {
        self.remaining = 0;
        self.initialized = ok;
    }

    /// Takes a row, and says whether it is forwarded.
    pub fn consume(&mut self) -> (r: Result<bool, String>)
        requires
            old(self).wf(),
        ensures
            final(self).wf(),
            final(self).nth == old(self).nth,
            final(self).initialized == old(self).initialized,
            match r {
                Err(e) => !old(self).initialized && e@
                    == "DecimationDispatcher must be initialized before consuming data"@
                    && final(self).remaining == old(self).remaining,
                Ok(forward) => {
                    &&& old(self).initialized
                    &&& forward == (old(self).remaining == 0)
                    &&& final(self).remaining == next_remaining(
                        old(self).nth as nat,
                        old(self).remaining as nat,
                    )
                },
            },
    {
        if !self.initialized {
            return Err(
                "DecimationDispatcher must be initialized before consuming data".to_owned(),
            );
        }
        if self.remaining == 0 {
            self.remaining = self.nth - 1;
            Ok(true)
        } else {
            self.remaining = self.remaining - 1;
            Ok(false)
        }
    }

    /// Ends a run.
    pub fn terminate(&mut self)
        ensures
            final(self).nth == old(self).nth,
            final(self).remaining == 0,
            !final(self).initialized,
    {
        self.remaining = 0;
        self.initialized = false;
    }
}

/// How many rows are skipped behind a row.
pub open spec fn next_remaining(nth: nat, remaining: nat) -> nat {
    if remaining == 0 {
        (nth - 1) as nat
    } else {
        (remaining - 1) as nat
    }
}

/// How many rows are skipped after the first `rows` rows of a run.
pub open spec fn remaining_after(nth: nat, rows: nat) -> nat
    decreases rows,
{
    if rows == 0 {
        0
    } else {
        next_remaining(nth, remaining_after(nth, (rows - 1) as nat))
    }
}

/// Of the rows of a run, those at the multiples of the factor are forwarded,
/// starting with the first.
pub proof fn law_every_nth_row_is_forwarded(nth: nat, row: nat)
    requires
        nth > 0,
    ensures
        remaining_after(nth, row) == 0 <==> row % nth == 0,
{
    lemma_remaining(nth, row);
}

proof fn lemma_remaining(nth: nat, row: nat)
    requires
        nth > 0,
    ensures
        remaining_after(nth, row) == if row % nth == 0 {
            0
        } else {
            (nth - row % nth) as nat
        },
    decreases row,
{
    if row == 0 {
        vstd::arithmetic::div_mod::lemma_small_mod(0, nth);
    } else {
        let before = (row - 1) as nat;
        lemma_remaining(nth, before);
        vstd::arithmetic::div_mod::lemma_mod_bound(before as int, nth as int);
        lemma_next_mod(before, nth);
    }
}

/// The remainder of the next number.
pub proof fn lemma_next_mod(k: nat, n: nat)
    requires
        n > 0,
    ensures
        (k + 1) % n == if k % n + 1 == n {
            0
        } else {
            k % n + 1
        },
{
    vstd::arithmetic::div_mod::lemma_fundamental_div_mod(k as int, n as int);
    vstd::arithmetic::div_mod::lemma_mod_bound(k as int, n as int);
    let q = k / n;
    let r = k % n;
    assert(q * n == n * q) by (nonlinear_arith);
    if r + 1 == n {
        assert(k + 1 == n * (q + 1)) by (nonlinear_arith)
            requires
                k == n * q + r,
                r + 1 == n,
        ;
        assert((q + 1) * n == n * (q + 1)) by (nonlinear_arith);
        vstd::arithmetic::div_mod::lemma_fundamental_div_mod_converse(
            (k + 1) as int,
            n as int,
            (q + 1) as int,
            0,
        );
    } else {
        vstd::arithmetic::div_mod::lemma_fundamental_div_mod_converse(
            (k + 1) as int,
            n as int,
            q as int,
            (r + 1) as int,
        );
    }
}

} // verus!
