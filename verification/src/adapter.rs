//! Single-settlement adaptation of one host promise.
//!
//! The host settles a promise at most once; the adapter turns that
//! settlement into a typed outcome, yields it exactly once, and never
//! before the host has settled.

use crate::host::AdaptError;
use crate::host::HostOutcome;
use crate::host::ResultShape;
use crate::host::TypedValue;
use crate::host::adapt_outcome;
use crate::host::adapt_settled;
use vstd::prelude::*;

verus! {

/// The adaptation of one host promise into a typed outcome.
pub struct PromiseAdapter {
    pub expected: ResultShape,
    pub settled: bool,
}

impl PromiseAdapter {
    pub fn new(expected: ResultShape) -> (adapter: Self)
        ensures
            adapter.expected == expected,
            !adapter.settled,
    {
        PromiseAdapter { expected, settled: false }
    }

    /// One observation of the host promise, `outcome` being what the
    /// host has settled with so far, if anything.  Yields the adapted
    /// result exactly at the first settled observation and never again;
    /// an unsettled observation yields nothing and changes nothing.
    pub fn observe(&mut self, outcome: Option<HostOutcome>) -> (r: Option<
        Result<TypedValue, AdaptError>,
    >)
        ensures
            final(self).expected == old(self).expected,
            final(self).settled == (old(self).settled || outcome is Some),
            old(self).settled ==> r is None,
            !old(self).settled && outcome is None ==> r is None,
            !old(self).settled ==> (outcome matches Some(o) ==> r == Some(
                adapt_outcome(old(self).expected, o),
            )),
    {
        if self.settled {
            return None;
        }
        match outcome {
            None => None,
            Some(o) => {
                self.settled = true;
                Some(adapt_settled(self.expected, o))
            },
        }
    }
}

/// The outputs of a fresh-or-settled adapter observing the host events
/// in `obs`, in order; mirrors `PromiseAdapter::observe` step by step.
pub open spec fn observe_run(
    expected: ResultShape,
    settled: bool,
    obs: Seq<Option<HostOutcome>>,
) -> Seq<Option<Result<TypedValue, AdaptError>>>
    decreases obs.len(),
{
    if obs.len() == 0 {
        Seq::empty()
    } else {
        let out = if settled {
            None
        } else {
            match obs.first() {
                None => None,
                Some(o) => Some(adapt_outcome(expected, o)),
            }
        };
        seq![out] + observe_run(expected, settled || obs.first() is Some, obs.drop_first())
    }
}

/// A settled adapter never yields again, whatever the host does.
pub proof fn lemma_settled_adapter_is_silent(expected: ResultShape, obs: Seq<Option<HostOutcome>>)
    ensures
        observe_run(expected, true, obs).len() == obs.len(),
        forall|j: int| 0 <= j < obs.len() ==> observe_run(expected, true, obs)[j] is None,
    decreases obs.len(),
{
    if obs.len() > 0 {
        lemma_settled_adapter_is_silent(expected, obs.drop_first());
        assert forall|j: int| 0 <= j < obs.len() implies observe_run(expected, true, obs)[j]
            is None by {
            if j > 0 {
                assert(observe_run(expected, true, obs)[j] == observe_run(
                    expected,
                    true,
                    obs.drop_first(),
                )[j - 1]);
            }
        }
    }
}

/// The adapted future settles exactly once, with exactly what the host
/// settled: along any observation sequence whose first settled entry is
/// at `k`, a fresh adapter yields nothing before `k` (the host had not
/// settled yet), yields at `k` exactly the host's outcome -- the value
/// coerced to the expected shape, a shape mismatch surfaced as a
/// coercion failure, a rejection forwarded unchanged -- and yields
/// nothing ever after.
pub proof fn lemma_settles_exactly_once(
    expected: ResultShape,
    obs: Seq<Option<HostOutcome>>,
    k: int,
)
    requires
        0 <= k < obs.len(),
        forall|j: int| 0 <= j < k ==> obs[j] is None,
        obs[k] is Some,
    ensures
        observe_run(expected, false, obs).len() == obs.len(),
        forall|j: int| 0 <= j < k ==> observe_run(expected, false, obs)[j] is None,
        observe_run(expected, false, obs)[k] == Some(adapt_outcome(expected, obs[k]->0)),
        forall|j: int| k < j < obs.len() ==> observe_run(expected, false, obs)[j] is None,
    decreases obs.len(),
{
    let outs = observe_run(expected, false, obs);
    if k == 0 {
        lemma_settled_adapter_is_silent(expected, obs.drop_first());
        assert(outs[0] == Some(adapt_outcome(expected, obs[0]->0)));
        assert forall|j: int| 0 < j < obs.len() implies outs[j] is None by {
            assert(outs[j] == observe_run(expected, true, obs.drop_first())[j - 1]);
        }
    } else {
        assert(obs[0] is None);
        assert forall|j: int| 0 <= j < k - 1 implies obs.drop_first()[j] is None by {
            assert(obs.drop_first()[j] == obs[j + 1]);
        }
        assert(obs.drop_first()[k - 1] == obs[k]);
        lemma_settles_exactly_once(expected, obs.drop_first(), k - 1);
        let rest = observe_run(expected, false, obs.drop_first());
        assert(outs =~= seq![Option::<Result<TypedValue, AdaptError>>::None] + rest);
        assert forall|j: int| 0 <= j < k implies outs[j] is None by {
            if j > 0 {
                assert(outs[j] == rest[j - 1]);
            }
        }
        assert(outs[k] == rest[k - 1]);
        assert forall|j: int| k < j < obs.len() implies outs[j] is None by {
            assert(outs[j] == rest[j - 1]);
        }
    }
}

/// While the host has not settled, the adapter yields nothing at all.
pub proof fn lemma_never_before_settlement(expected: ResultShape, obs: Seq<Option<HostOutcome>>)
    requires
        forall|j: int| 0 <= j < obs.len() ==> obs[j] is None,
    ensures
        observe_run(expected, false, obs).len() == obs.len(),
        forall|j: int| 0 <= j < obs.len() ==> observe_run(expected, false, obs)[j] is None,
    decreases obs.len(),
{
    if obs.len() > 0 {
        assert forall|j: int| 0 <= j < obs.drop_first().len() implies obs.drop_first()[j]
            is None by {
            assert(obs.drop_first()[j] == obs[j + 1]);
        }
        lemma_never_before_settlement(expected, obs.drop_first());
        let outs = observe_run(expected, false, obs);
        assert forall|j: int| 0 <= j < obs.len() implies outs[j] is None by {
            if j > 0 {
                assert(outs[j] == observe_run(expected, false, obs.drop_first())[j - 1]);
            }
        }
    }
}

} // verus!
