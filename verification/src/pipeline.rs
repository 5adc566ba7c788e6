//! What a run of the interpreter is asked for, and what it reports.
use vstd::prelude::*;

verus! {

/// What a run is asked for beyond its result.
#[derive(Debug, Clone)]
pub struct RunOptions {
    pub collect_evaluator_profile: bool,
}

impl Default for RunOptions {
    fn default() -> (r: Self)
        ensures
            !r.collect_evaluator_profile,
    {
        RunOptions { collect_evaluator_profile: false }
    }
}

/// How long each phase of a run took, in nanoseconds.
#[derive(Debug, Clone, Copy, PartialEq, Eq, Structural)]
pub struct PhaseTimings {
    pub load_root_ns: u64,
    pub resolve_ns: u64,
    pub normalize_ns: u64,
    pub typecheck_ns: u64,
    pub elaborate_ns: u64,
    pub evaluate_ns: u64,
    pub total_ns: u64,
}

impl Default for PhaseTimings {
    fn default() -> (r: Self)
        ensures
            r == (PhaseTimings {
                load_root_ns: 0,
                resolve_ns: 0,
                normalize_ns: 0,
                typecheck_ns: 0,
                elaborate_ns: 0,
                evaluate_ns: 0,
                total_ns: 0,
            }),
    {
        PhaseTimings {
            load_root_ns: 0,
            resolve_ns: 0,
            normalize_ns: 0,
            typecheck_ns: 0,
            elaborate_ns: 0,
            evaluate_ns: 0,
            total_ns: 0,
        }
    }
}

/// What a run reports: how long it took, and what the evaluator has to say.
#[derive(Debug, Clone)]
pub struct RunReport<E> {
    pub phase_timings: PhaseTimings,
    pub evaluation: E,
}

/// How long each phase of the run of a single file took, in nanoseconds, with the details that
/// the type checker gives.
#[derive(Debug, Clone)]
pub struct EvaluatorFixturePhaseTimings<T> {
    pub parse_ns: u64,
    pub typecheck_ns: u64,
    pub typecheck_detail: T,
    pub evaluate_ns: u64,
    pub total_ns: u64,
}

/// What the run of a single file reports.
#[derive(Debug, Clone)]
pub struct EvaluatorFixtureRunReport<T, E> {
    pub phase_timings: EvaluatorFixturePhaseTimings<T>,
    pub evaluation: E,
}

/// A number of nanoseconds, or the greatest that 64 bits hold where there are more.
pub fn capped_ns(ns: u128) -> (r: u64)
    ensures
        r == if ns > u64::MAX {
            u64::MAX as u128
        } else {
            ns
        },
{
    if ns > u64::MAX as u128 {
        u64::MAX
    } else {
        ns as u64
    }
}

/// The phases of a run, in the order in which they follow each other.
#[derive(Debug, Clone, Copy, PartialEq, Eq, Structural)]
pub enum Phase {
    Load,
    Resolve,
    Normalize,
    Typecheck,
    Elaborate,
    Evaluate,
}

impl PhaseTimings {
    /// How long a phase took.
    pub open spec fn of(self, phase: Phase) -> u64 {
        match phase {
            Phase::Load => self.load_root_ns,
            Phase::Resolve => self.resolve_ns,
            Phase::Normalize => self.normalize_ns,
            Phase::Typecheck => self.typecheck_ns,
            Phase::Elaborate => self.elaborate_ns,
            Phase::Evaluate => self.evaluate_ns,
        }
    }

    /// Note how long a phase took.
    pub fn record(&mut self, phase: Phase, ns: u128)
        ensures
            final(self).of(phase) == if ns > u64::MAX {
                u64::MAX as u128
            } else {
                ns
            },
            forall|other: Phase|
                other != phase ==> #[trigger] final(self).of(other) == old(self).of(other),
            final(self).total_ns == old(self).total_ns,
    {
        let ns: u64 = capped_ns(ns);
        match phase {
            Phase::Load => self.load_root_ns = ns,
            Phase::Resolve => self.resolve_ns = ns,
            Phase::Normalize => self.normalize_ns = ns,
            Phase::Typecheck => self.typecheck_ns = ns,
            Phase::Elaborate => self.elaborate_ns = ns,
            Phase::Evaluate => self.evaluate_ns = ns,
        }
    }
}

} // verus!
