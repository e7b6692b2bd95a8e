//! The course of a low-pass filter before rows are forwarded to another
//! dispatcher: it is primed on the first row and steps on the others.

use vstd::prelude::*;

verus! {

/// What the filters of all channels do with a row.
#[derive(Debug, Clone, Copy, PartialEq, Eq, Structural)]
pub enum FilterStep {
    /// Take the values as steady state, and forward them as they are.
    Prime,
    /// Step, and forward the filtered values.
    Step,
}

/// Applies a low-pass filter per channel.
#[derive(Debug)]
pub struct LowPassDispatcher {
    pub primed: bool,
    pub initialized: bool,
}

impl LowPassDispatcher {
    /// Nothing filtered yet.
    pub fn new() -> (r: Self)
        ensures
            !r.primed,
            !r.initialized,
    {
        LowPassDispatcher { primed: false, initialized: false }
    }

    /// Checks the period of the rows before the filter is made.
    pub fn check_period(dt_ns: u32) -> (r: Result<(), String>)
        ensures
            match r {
                Ok(()) => dt_ns > 0,
                Err(e) => dt_ns == 0 && e@ == "dt_ns must be > 0"@,
            },
    {
        if dt_ns == 0 {
            return Err("dt_ns must be > 0".to_owned());
        }
        Ok(())
    }

    /// Starts a run. `ok` says whether the dispatcher behind it could start.
    pub fn init(&mut self, ok: bool)
        ensures
            !final(self).primed,
            final(self).initialized == ok,
    {
        self.primed = false;
        self.initialized = ok;
    }

    /// Takes a row, and says what the filters do with it: only the first row of a
    /// run primes them.
    pub fn consume(&mut self) -> (r: Result<FilterStep, String>)
        ensures
            final(self).initialized == old(self).initialized,
            match r {
                Err(e) => {
                    &&& !old(self).initialized
                    &&& e@ == "LowPassDispatcher must be initialized before consuming data"@
                    &&& final(self).primed == old(self).primed
                },
                Ok(step) => {
                    &&& old(self).initialized
                    &&& final(self).primed
                    &&& step == if old(self).primed {
                        FilterStep::Step
                    } else {
                        FilterStep::Prime
                    }
                },
            },
    {
        if !self.initialized {
            return Err("LowPassDispatcher must be initialized before consuming data".to_owned());
        }
        if self.primed {
            Ok(FilterStep::Step)
        } else {
            self.primed = true;
            Ok(FilterStep::Prime)
        }
    }

    /// Ends a run.
    pub fn terminate(&mut self)
        ensures
            !final(self).primed,
            !final(self).initialized,
    {
        self.primed = false;
        self.initialized = false;
    }
}

} // verus!
