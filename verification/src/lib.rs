//! Rules of a two-team capture-point arena, in fixed-point arithmetic.
//!
//! Chickens and dogs fight over capture points. Whoever stands on a point
//! pushes its progress toward his own side, a point that has fallen to a side
//! breeds minions for it, minions and leaders go for the nearest rival they
//! can see, and the side that holds every point has won. The crate holds the
//! rules only: it draws nothing and reads no input. A host feeds it positions,
//! overlaps and elapsed time, and puts on screen what comes back.

use vstd::prelude::*;

pub mod assets;
pub mod bullet;
pub mod enemy;
pub mod external;
pub mod fixed;
pub mod geometry;
pub mod map;
pub mod minion;
pub mod movement;
pub mod player;
pub mod prelude;
pub mod spawner;
pub mod targeting;
pub mod team;
pub mod timer;

verus! {

/// The screens of the game.
#[derive(Clone, Copy, Debug, PartialEq, Eq, Structural, Hash)]
pub enum GameState {
    Splash,
    MainMenu,
    Tutorial,
    GamePlay,
    GameOver { won: bool },
}

} // verus!
