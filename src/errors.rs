//! Why a change to the city map was refused.
use vstd::prelude::*;

verus! {

#[derive(Clone, Copy, PartialEq, Eq, Structural, Debug)]
pub enum AddBuildingError {
    InsufficientBudget,
    OutOfMap,
    AlreadyTaken,
}

#[derive(Clone, Copy, PartialEq, Eq, Structural, Debug)]
pub enum DeleteBuildingError {
    NoBuildingFound,
    OutOfMap,
}

} // verus!
