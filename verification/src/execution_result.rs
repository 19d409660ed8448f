//! What running one deploy came to, as a caller of the engine sees it.
use vstd::prelude::*;
use crate::global_state::EffectSet;
use crate::key::Key;
use crate::transform::TransformView;

verus! {

/// An amount of gas.
#[derive(Clone, Copy, Debug, PartialEq, Eq, Structural)]
pub struct Gas {
    pub value: u64,
}

/// The outcome of one deploy: its effects and its cost, and for a failure
/// the message of the error that ended it.
#[derive(Clone, Debug)]
pub enum ExecutionResult {
    Failure { error: String, effect: EffectSet, cost: Gas },
    Success { effect: EffectSet, cost: Gas },
}

impl ExecutionResult {
    /// The gas spent.
    pub open spec fn spec_cost(&self) -> Gas {
        match *self {
            ExecutionResult::Failure { cost, .. } => cost,
            ExecutionResult::Success { cost, .. } => cost,
        }
    }

    /// Whether the deploy was turned down before it ran: a failure that
    /// cost nothing and had no effect.
    pub open spec fn is_precondition_failure(&self) -> bool {
        match *self {
            ExecutionResult::Failure { cost, effect, .. } => cost.value == 0 && effect@ == Map::<
                Key,
                TransformView,
            >::empty(),
            ExecutionResult::Success { .. } => false,
        }
    }

    /// The message of the error, if the deploy failed.
    pub open spec fn spec_error(&self) -> Option<Seq<char>> {
        match *self {
            ExecutionResult::Failure { error, .. } => Some(error@),
            ExecutionResult::Success { .. } => None,
        }
    }

    /// The result of a deploy that was turned down before it ran.
    pub fn precondition_failure(error: String) -> (result: ExecutionResult)
        ensures
            result.is_precondition_failure(),
            result.spec_error() == Some(error@),
            result.spec_cost() == (Gas { value: 0 }),
    {
        ExecutionResult::Failure { error, effect: EffectSet::new(), cost: Gas { value: 0 } }
    }

    pub fn cost(&self) -> (cost: Gas)
        ensures
            cost == self.spec_cost(),
    {
        match self {
            ExecutionResult::Failure { cost, .. } => *cost,
            ExecutionResult::Success { cost, .. } => *cost,
        }
    }

    pub fn is_success(&self) -> (b: bool)
        ensures
            b == (*self is Success),
    {
        match self {
            ExecutionResult::Failure { .. } => false,
            ExecutionResult::Success { .. } => true,
        }
    }

    pub fn is_failure(&self) -> (b: bool)
        ensures
            b == (*self is Failure),
    {
        match self {
            ExecutionResult::Failure { .. } => true,
            ExecutionResult::Success { .. } => false,
        }
    }

    pub fn has_precondition_failure(&self) -> (b: bool)
        ensures
            b == self.is_precondition_failure(),
    {
        match self {
            ExecutionResult::Failure { cost, effect, .. } => cost.value == 0 && effect.is_empty(),
            ExecutionResult::Success { .. } => false,
        }
    }

    pub fn error(&self) -> (error: Option<&String>)
        ensures
            match error {
                Some(message) => self.spec_error() == Some(message@),
                None => self.spec_error() is None,
            },
    {
        match self {
            ExecutionResult::Failure { error, .. } => Some(error),
            ExecutionResult::Success { .. } => None,
        }
    }

    pub fn effect(&self) -> (effect: &EffectSet)
        ensures
            match *self {
                ExecutionResult::Failure { effect: e, .. } => *effect == e,
                ExecutionResult::Success { effect: e, .. } => *effect == e,
            },
    {
        match self {
            ExecutionResult::Failure { effect, .. } => effect,
            ExecutionResult::Success { effect, .. } => effect,
        }
    }
}

} // verus!
