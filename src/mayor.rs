//! The mayor decides whether the city can afford a building.
use vstd::prelude::*;

verus! {

/// Why the budget could not be lowered.
#[derive(Clone, Copy, PartialEq, Eq, Structural, Debug)]
pub enum DescrementBudgetError {
    BudgetExhausted,
}

/// Keeper of the city budget.
pub trait Mayor: Sized {
    /// Whether the budget covers `cost`.
    spec fn affords(&self, cost: u32) -> bool;

    /// The mayor once `cost` was spent.
    spec fn spend(&self, cost: u32) -> Self;

    fn has_budget(&self, cost: u32) -> (r: bool)
        ensures
            r == self.affords(cost),
    ;

    /// Spend `cost`; never refused when the budget covers it, and a refusal
    /// spends nothing.
    fn decrement_budget(&mut self, cost: u32) -> (r: Result<(), DescrementBudgetError>)
        ensures
            old(self).affords(cost) ==> r is Ok,
            r is Ok ==> *final(self) == old(self).spend(cost),
            r is Err ==> *final(self) == *old(self),
    ;
}

/// A mayor with an unlimited budget.
pub struct MainMayor {}

impl MainMayor {
    pub fn new() -> (r: Self) {
        MainMayor {  }
    }
}

impl Mayor for MainMayor {
    open spec fn affords(&self, cost: u32) -> bool {
        true
    }

    open spec fn spend(&self, cost: u32) -> Self {
        MainMayor {  }
    }

    fn has_budget(&self, _cost: u32) -> (r: bool) {
        true
    }

    fn decrement_budget(&mut self, _cost: u32) -> (r: Result<(), DescrementBudgetError>) {
        Ok(())
    }
}

} // verus!
