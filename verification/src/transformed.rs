//! The marker by which a pass says whether it changed a plan.
use vstd::prelude::*;

verus! {

/// Outcome of a rewriting pass over a value: `Yes` carries a rebuilt value,
/// `No` hands back the value that was passed in.
#[derive(Debug, Clone)]
pub enum Transformed<T> {
    Yes(T),
    No(T),
}

impl<T> Transformed<T> {
    /// The carried value, whichever variant holds it.
    pub open spec fn plan(self) -> T {
        match self {
            Transformed::Yes(p) => p,
            Transformed::No(p) => p,
        }
    }

    pub fn get_plan(self) -> (plan: T)
        ensures
            plan == self.plan(),
    {
        match self {
            Transformed::Yes(plan) => plan,
            Transformed::No(plan) => plan,
        }
    }

    pub fn is_yes(&self) -> (yes: bool)
        ensures
            yes == (*self is Yes),
    {
        match self {
            Transformed::Yes(_) => true,
            Transformed::No(_) => false,
        }
    }
}

} // verus!
