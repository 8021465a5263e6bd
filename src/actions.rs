//! The operations that can be run on a depository.
use vstd::prelude::*;

verus! {

#[derive(Clone, Copy, Debug, PartialEq, Eq, Structural)]
pub struct FetchAction {}

#[derive(Clone, Copy, Debug, PartialEq, Eq, Structural)]
pub struct ParseAction {}

#[derive(Clone, Copy, Debug, PartialEq, Eq, Structural)]
pub struct UpdateAction {}

#[derive(Clone, Copy, Debug, PartialEq, Eq, Structural)]
pub enum Action {
    Fetch(FetchAction),
    Parse(ParseAction),
    Update(UpdateAction),
}

} // verus!
