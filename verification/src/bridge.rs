//! Bridging owner-bound logic to host-invocable values.
//!
//! Once handed to the host, a bridged callback lives as long as the
//! host may invoke it; the host's own retention governs its lifetime.
//! What this core can state and check is the invocation discipline:
//! each host invocation runs the bound logic once, with exactly the
//! handed argument, in invocation order.

use crate::host::HostValue;
use vstd::prelude::*;

verus! {

/// A repeatable host-invocable callback.  `runs` records, in order,
/// the arguments the bound logic has been run with.
pub struct CallbackBridge {
    pub runs: Vec<HostValue>,
}

impl CallbackBridge {
    pub fn new() -> (bridge: Self)
        ensures
            bridge.runs@ == Seq::<HostValue>::empty(),
    {
        CallbackBridge { runs: Vec::new() }
    }

    /// One host invocation with argument `arg`: the bound logic runs
    /// once with exactly `arg`, after everything logged so far; the
    /// returned index is this run's position in the log.
    pub fn invoke(&mut self, arg: HostValue) -> (run_index: usize)
        ensures
            final(self).runs@ == old(self).runs@.push(arg),
            run_index == old(self).runs@.len(),
    {
        let run_index = self.runs.len();
        self.runs.push(arg);
        run_index
    }

    /// A host that invokes the bridge N times with arguments
    /// `a1 .. aN` runs the bound logic N times, in that order, with no
    /// duplication or loss.
    pub fn invoke_all(&mut self, args: Vec<HostValue>)
        ensures
            final(self).runs@ == old(self).runs@ + args@,
    {
        let ghost handed = args@;
        let mut rest = args;
        while rest.len() > 0
            invariant
                self.runs@ + rest@ == old(self).runs@ + handed,
            decreases rest.len(),
        {
            let arg = rest.remove(0);
            self.invoke(arg);
            proof {
                assert(self.runs@ + rest@ =~= old(self).runs@ + handed);
            }
        }
        proof {
            assert(self.runs@ =~= old(self).runs@ + handed);
        }
    }
}

/// A one-shot wrapper around owner-bound logic, for one-time bootstrap
/// sequences: it directs the bound logic to run on the first demand
/// and never again.
pub struct OneShot {
    pub used: bool,
}

impl OneShot {
    pub fn new() -> (wrapper: Self)
        ensures
            !wrapper.used,
    {
        OneShot { used: false }
    }

    /// Whether the bound logic should run now: true exactly on the
    /// first demand.
    pub fn arm(&mut self) -> (fire: bool)
        ensures
            final(self).used,
            fire == !old(self).used,
    {
        let fire = !self.used;
        self.used = true;
        fire
    }
}

} // verus!
