//! Collision core of a ball-and-paddle game, on an integer lattice.
//!
//! Each tick a driver runs two passes, in this order. The scanner tests the
//! ball against every collider and reports the contacts; the responder reads
//! that report, reflects the ball and retires the bricks that were struck. What
//! is drawn, played or despawned as a consequence is the driver's business, and
//! so is moving the ball and the paddle between ticks.
//!
//! Coordinates are integers on a lattice of `UNITS_PER_PIXEL` units to a pixel
//! of the scene. The collision routines depend only on the ratios of their
//! arguments; the hit test of the menu measures against the window, and so
//! depends on the unit as well.

pub mod collision;
pub mod components;
pub mod geometry;
pub mod menu;
pub mod resources;
pub mod responder;
pub mod scanner;
pub mod tick;

pub use collision::{AppState, CollisionEvent, CollisionSide, CollisionType};
pub use components::{Ball, Collider, ColliderKind, Velocity};
pub use geometry::{check_boundary_collide, Circle, Extent, Rect, Vector, UNITS_PER_PIXEL};
pub use menu::check_ui_collision;
pub use resources::WallCount;
pub use responder::on_collision;
pub use scanner::{check_collisions, Scan};
