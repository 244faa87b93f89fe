//! The bodies that take part in collisions.

use vstd::prelude::*;
use crate::geometry::{Circle, Extent, Rect, Vector};

verus! {

/// Displacement of the ball per unit of time.
#[derive(Clone, Copy, Debug, PartialEq, Eq, Structural)]
pub struct Velocity(pub Vector);

impl Velocity {
    /// Both components can change sign without leaving `i32`.
    pub open spec fn reversible(self) -> bool {
        self.0.x > i32::MIN && self.0.y > i32::MIN
    }
}

/// The ball. `collided` records that the last tick saw a contact.
#[derive(Clone, Copy, Debug, PartialEq, Eq, Structural)]
pub struct Ball {
    pub position: Vector,
    pub velocity: Velocity,
    pub radius: u32,
    pub collided: bool,
}

impl Ball {
    /// The disc the ball covers.
    pub open spec fn circle(self) -> Circle {
        Circle { center: self.position, radius: self.radius }
    }

    /// The disc the ball covers.
    pub fn bounding_circle(&self) -> (circle: Circle)
        ensures
            circle == self.circle(),
    {
        Circle { center: self.position, radius: self.radius }
    }
}

/// What a collider is: a brick of the wall, the paddle, or an edge of the
/// playfield. Only bricks can be destroyed.
#[derive(Clone, Copy, Debug, PartialEq, Eq, Structural)]
pub enum ColliderKind {
    Wall,
    Paddle,
    Boundary,
}

/// An axis-aligned rectangle the ball can strike, given as the scene holds
/// it: by the position of its center and by its full size along each axis.
/// `entity` identifies the scene object it belongs to.
#[derive(Clone, Copy, Debug, PartialEq, Eq, Structural)]
pub struct Collider {
    pub entity: u64,
    pub position: Vector,
    pub scale: Extent,
    pub kind: ColliderKind,
}

impl Collider {
    /// The rectangle the collider covers: it reaches half the scale to either
    /// side of the position. Half of an odd scale is rounded down.
    pub open spec fn rect(self) -> Rect {
        Rect {
            center: self.position,
            half_extent: Extent { x: self.scale.x / 2, y: self.scale.y / 2 },
        }
    }

    /// The rectangle the collider covers.
    pub fn bounding_box(&self) -> (rect: Rect)
        ensures
            rect == self.rect(),
    {
        Rect {
            center: self.position,
            half_extent: Extent { x: self.scale.x / 2, y: self.scale.y / 2 },
        }
    }
}

} // verus!
