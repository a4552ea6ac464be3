//! The two opposing sides of a match.

use vstd::prelude::*;

verus! {

/// One of the two sides of a match. The player leads the chickens, the
/// enemy leads the dogs.
#[derive(Clone, Copy, Debug, PartialEq, Eq, Structural, Hash)]
pub enum ChickenOrDog {
    Chicken,
    Dog,
}

impl ChickenOrDog {
    /// The side this one fights against.
    pub open spec fn rival(self) -> ChickenOrDog {
        match self {
            ChickenOrDog::Chicken => ChickenOrDog::Dog,
            ChickenOrDog::Dog => ChickenOrDog::Chicken,
        }
    }

    /// The side this one fights against.
    pub fn opponent(self) -> (r: ChickenOrDog)
        ensures
            r == self.rival(),
            r != self,
    {
        match self {
            ChickenOrDog::Chicken => ChickenOrDog::Dog,
            ChickenOrDog::Dog => ChickenOrDog::Chicken,
        }
    }
}

impl Default for ChickenOrDog {
    fn default() -> (r: ChickenOrDog)
        ensures
            r == ChickenOrDog::Chicken,
    {
        ChickenOrDog::Chicken
    }
}

} // verus!
