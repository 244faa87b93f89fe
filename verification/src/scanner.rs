//! The first pass of a tick: find every contact of the ball and report it,
//! changing nothing.

use vstd::prelude::*;
use crate::collision::{AppState, CollisionEvent, CollisionSide, CollisionType};
use crate::components::{Ball, Collider, ColliderKind};
use crate::geometry::{boundary_side, check_boundary_collide, Circle};
use crate::resources::WallCount;

verus! {

/// What one scan found and asks for.
#[derive(Debug, PartialEq, Eq)]
pub struct Scan {
    /// The contacts, in the order of the colliders that were struck.
    pub events: Vec<CollisionEvent>,
    /// How many times the contact sound is to be played.
    pub sounds: usize,
    /// The state the application is asked to move to, if any.
    pub next_state: Option<AppState>,
}

/// The event that reports a contact with `side` of `collider`. A brick is
/// reported as `Wall` under its own identity; anything else as `Paddle`,
/// anonymously.
pub open spec fn event_for(collider: Collider, side: CollisionSide) -> CollisionEvent {
    if collider.kind == ColliderKind::Wall {
        CollisionEvent {
            collisiontype: CollisionType::Wall,
            side,
            entity: Some(collider.entity),
        }
    } else {
        CollisionEvent { collisiontype: CollisionType::Paddle, side, entity: None }
    }
}

/// The event that `collider` gives rise to when `ball` touches it.
pub open spec fn contact(ball: Circle, collider: Collider) -> Option<CollisionEvent> {
    match boundary_side(ball, collider.rect()) {
        Some(side) => Some(event_for(collider, side)),
        None => None,
    }
}

/// `contact` for a fixed ball, as a function of the collider.
pub open spec fn contact_with(ball: Circle) -> spec_fn(Collider) -> Option<CollisionEvent> {
    |collider: Collider| contact(ball, collider)
}

/// The events of a scan: one for each collider that the ball touches, in the
/// order of the colliders; none at all while there is no ball.
pub open spec fn scan_events(ball: Option<Ball>, colliders: Seq<Collider>) -> Seq<CollisionEvent> {
    match ball {
        Some(ball) => colliders.filter_map(contact_with(ball.circle())),
        None => Seq::empty(),
    }
}

/// The state a scan asks for: the menu once no brick is left, nothing before.
pub open spec fn requested_state(count: WallCount) -> Option<AppState> {
    if count.exhausted() {
        Some(AppState::Menu)
    } else {
        None
    }
}

/// How many of `colliders` are bricks.
pub open spec fn bricks(colliders: Seq<Collider>) -> nat
    decreases colliders.len(),
{
    if colliders.len() == 0 {
        0
    } else if colliders.last().kind == ColliderKind::Wall {
        bricks(colliders.drop_last()) + 1
    } else {
        bricks(colliders.drop_last())
    }
}

fn report(collider: &Collider, side: CollisionSide) -> (event: CollisionEvent)
    ensures
        event == event_for(*collider, side),
{
    match collider.kind {
        ColliderKind::Wall => CollisionEvent {
            collisiontype: CollisionType::Wall,
            side,
            entity: Some(collider.entity),
        },
        _ => CollisionEvent { collisiontype: CollisionType::Paddle, side, entity: None },
    }
}

/// Tests the ball against every collider and reports each contact as an event
/// and a sound. The request for the menu depends on the counter alone, so it
/// is made with or without a ball.
pub fn check_collisions(
    ball: &Option<Ball>,
    colliders: &Vec<Collider>,
    count: &WallCount,
) -> (scan: Scan)
    ensures
        scan.events@ == scan_events(*ball, colliders@),
        scan.sounds == scan.events@.len(),
        scan.next_state == requested_state(*count),
{
    let mut events: Vec<CollisionEvent> = Vec::new();
    if let Some(ball) = ball {
        let circle = ball.bounding_circle();
        let mut i: usize = 0;
        while i < colliders.len()
            invariant
                i <= colliders.len(),
                events@ == colliders@.take(i as int).filter_map(contact_with(circle)),
            decreases colliders.len() - i,
        {
            let collider = &colliders[i];
            proof {
                colliders@.lemma_filter_map_take_succ(contact_with(circle), i as int);
            }
            if let Some(side) = check_boundary_collide(circle, collider.bounding_box()) {
                events.push(report(collider, side));
            }
            i += 1;
        }
        assert(colliders@.take(colliders.len() as int) == colliders@);
    }
    let sounds: usize = events.len();
    let next_state = if count.0 == 0 {
        Some(AppState::Menu)
    } else {
        None
    };
    Scan { events, sounds, next_state }
}

} // verus!
