//! Sampling strategies: whether a trace's spans are exported.

use vstd::prelude::*;
use crate::codec::TraceContext;

verus! {

/// A sampling strategy.
#[derive(Debug)]
pub enum Sampler {
    /// Every trace is sampled.
    AlwaysOn,
    /// No trace is sampled.
    AlwaysOff,
    /// A parent's decision is kept; a root is decided by the delegate.
    ParentBased(Box<Sampler>),
}

/// The decision for a new context under `parent` (none for a root).
pub open spec fn decision(s: Sampler, parent: Option<TraceContext>) -> bool
    decreases s,
{
    match s {
        Sampler::AlwaysOn => true,
        Sampler::AlwaysOff => false,
        Sampler::ParentBased(d) => match parent {
            Some(p) => p.sampled,
            None => decision(*d, None),
        },
    }
}

impl Sampler {
    /// The strategy the tracing pipeline uses by default.
    pub fn parent_based_always_on() -> (r: Sampler)
        ensures
            r == Sampler::ParentBased(Box::new(Sampler::AlwaysOn)),
    {
        Sampler::ParentBased(Box::new(Sampler::AlwaysOn))
    }

    /// Decides whether a context derived from `parent` is sampled.
    pub fn should_sample(&self, parent: Option<&TraceContext>) -> (r: bool)
        ensures
            r == decision(*self, match parent {
                Some(p) => Some(*p),
                None => None,
            }),
        decreases self,
    {
        match self {
            Sampler::AlwaysOn => true,
            Sampler::AlwaysOff => false,
            Sampler::ParentBased(d) => match parent {
                Some(p) => p.sampled,
                None => d.should_sample(None),
            },
        }
    }
}

/// Under a parent-based strategy a child keeps its parent's decision, whatever
/// the delegate.
pub proof fn lemma_parent_based_inherits(d: Sampler, parent: TraceContext)
    ensures
        decision(Sampler::ParentBased(Box::new(d)), Some(parent)) == parent.sampled,
{
}

} // verus!
