//! The vocabulary the passes of a tick exchange: sides, contact kinds, events
//! and the state of the application.

use vstd::prelude::*;

verus! {

/// Which screen the application shows; it decides which passes run.
#[derive(Clone, Copy, Debug, PartialEq, Eq, Hash, Structural)]
pub enum AppState {
    Menu,
    InGame,
}

impl Default for AppState {
    /// The application starts on the menu.
    fn default() -> (state: AppState)
        ensures
            state == AppState::Menu,
    {
        AppState::Menu
    }
}

/// What the ball ran into. Everything that is not a brick counts as `Paddle`,
/// the playfield's edges included.
#[derive(Clone, Copy, Debug, PartialEq, Eq, Structural)]
pub enum CollisionType {
    Paddle,
    Wall,
}

/// The face of a rectangle that a contact is attributed to.
#[derive(Clone, Copy, Debug, PartialEq, Eq, Structural)]
pub enum CollisionSide {
    Left,
    Right,
    Top,
    Bottom,
}

impl CollisionSide {
    /// A contact with a left or right face reverses the horizontal component
    /// of the velocity; one with a top or bottom face reverses the vertical.
    pub open spec fn is_horizontal(self) -> bool {
        self == CollisionSide::Left || self == CollisionSide::Right
    }
}

/// One contact found in a tick. `entity` names the struck brick and is present
/// only for bricks.
#[derive(Clone, Copy, Debug, PartialEq, Eq)]
pub struct CollisionEvent {
    pub collisiontype: CollisionType,
    pub side: CollisionSide,
    pub entity: Option<u64>,
}

} // verus!
