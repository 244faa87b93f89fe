//! The second pass of a tick: act on the contacts that the scan reported.

use vstd::prelude::*;
use crate::collision::{CollisionEvent, CollisionSide, CollisionType};
use crate::components::{Ball, Velocity};
use crate::geometry::Vector;
use crate::resources::WallCount;

verus! {

/// The brick that `event` destroys: the one it names, provided the event is of
/// the `Wall` kind.
pub open spec fn destroyed_brick(event: CollisionEvent) -> Option<u64> {
    if event.collisiontype == CollisionType::Wall {
        event.entity
    } else {
        None
    }
}

/// `destroyed_brick` as a function value.
pub open spec fn brick_of() -> spec_fn(CollisionEvent) -> Option<u64> {
    |event: CollisionEvent| destroyed_brick(event)
}

/// The bricks that `events` destroy, in the order of the events.
pub open spec fn destroyed_bricks(events: Seq<CollisionEvent>) -> Seq<u64> {
    events.filter_map(brick_of())
}

/// How many of `events` struck a left or right side (`horizontal`), or a top or
/// bottom side (not `horizontal`).
pub open spec fn hits(events: Seq<CollisionEvent>, horizontal: bool) -> nat
    decreases events.len(),
{
    if events.len() == 0 {
        0
    } else if events.last().side.is_horizontal() == horizontal {
        hits(events.drop_last(), horizontal) + 1
    } else {
        hits(events.drop_last(), horizontal)
    }
}

/// A velocity component after `hits` reversals: an even number cancels out.
pub open spec fn reflected(component: int, hits: nat) -> int {
    if hits % 2 == 0 {
        component
    } else {
        -component
    }
}

/// The velocity after every one of `events` has reversed the component that
/// belongs to its side.
pub open spec fn velocity_after(velocity: Velocity, events: Seq<CollisionEvent>) -> Velocity {
    Velocity(
        Vector {
            x: reflected(velocity.0.x as int, hits(events, true)) as i32,
            y: reflected(velocity.0.y as int, hits(events, false)) as i32,
        },
    )
}

/// The ball after the responder has seen `events`: reflected and flagged if
/// there were any, with the flag cleared and nothing else changed if not.
/// Without a ball there is nothing to respond with.
pub open spec fn ball_after(ball: Option<Ball>, events: Seq<CollisionEvent>) -> Option<Ball> {
    match ball {
        Some(ball) => Some(
            Ball {
                velocity: velocity_after(ball.velocity, events),
                collided: events.len() > 0,
                ..ball
            },
        ),
        None => None,
    }
}

/// The bricks that the responder retires: those that `events` destroy, or none
/// while there is no ball.
pub open spec fn retired(ball: Option<Ball>, events: Seq<CollisionEvent>) -> Seq<u64> {
    if ball is Some {
        destroyed_bricks(events)
    } else {
        Seq::empty()
    }
}

/// A prefix of the events destroys no more bricks than all of them.
pub proof fn lemma_prefix_destroys_fewer(events: Seq<CollisionEvent>, n: int)
    requires
        0 <= n <= events.len(),
    ensures
        destroyed_bricks(events.take(n)).len() <= destroyed_bricks(events).len(),
    decreases events.len() - n,
{
    if n < events.len() {
        events.lemma_filter_map_take_succ(brick_of(), n);
        lemma_prefix_destroys_fewer(events, n + 1);
    } else {
        assert(events.take(n) == events);
    }
}

/// No more bricks are destroyed than there are events.
pub proof fn lemma_destroys_at_most_one_each(events: Seq<CollisionEvent>)
    ensures
        destroyed_bricks(events).len() <= events.len(),
    decreases events.len(),
{
    if events.len() > 0 {
        lemma_destroys_at_most_one_each(events.drop_last());
    }
}

/// One more event adds one hit on its own axis and none on the other.
proof fn lemma_hits_take_succ(events: Seq<CollisionEvent>, n: int, horizontal: bool)
    requires
        0 <= n < events.len(),
    ensures
        hits(events.take(n + 1), horizontal) == hits(events.take(n), horizontal) + (if events[n].side.is_horizontal() == horizontal {
            1nat
        } else {
            0nat
        }),
{
    assert(events.take(n + 1).drop_last() == events.take(n));
}

/// Consumes the events of this tick. With none, the ball's flag is cleared.
/// Otherwise the ball is flagged, each event in turn reverses the velocity
/// component across the side it names, and each brick that a `Wall` event
/// names is retired: it is returned, in event order, and the counter drops by
/// one. Without a ball nothing is consumed and nothing changes.
pub fn on_collision(
    ball: &mut Option<Ball>,
    events: &Vec<CollisionEvent>,
    count: &mut WallCount,
) -> (destroyed: Vec<u64>)
    requires
        *old(ball) matches Some(b) ==> b.velocity.reversible(),
        *old(ball) is Some ==> old(count).0 - destroyed_bricks(events@).len() >= i32::MIN,
    ensures
        *final(ball) == ball_after(*old(ball), events@),
        destroyed@ == retired(*old(ball), events@),
        final(count).0 == old(count).0 - destroyed@.len(),
{
    let mut destroyed: Vec<u64> = Vec::new();
    if let Some(before) = *ball {
        let mut current = before;
        current.collided = events.len() > 0;
        let mut i: usize = 0;
        while i < events.len()
            invariant
                i <= events.len(),
                before.velocity.reversible(),
                current.velocity.reversible(),
                current.velocity == velocity_after(before.velocity, events@.take(i as int)),
                current.position == before.position,
                current.radius == before.radius,
                current.collided == (events.len() > 0),
                destroyed@ == destroyed_bricks(events@.take(i as int)),
                count.0 == old(count).0 - destroyed@.len(),
                old(count).0 - destroyed_bricks(events@).len() >= i32::MIN,
            decreases events.len() - i,
        {
            let event = &events[i];
            proof {
                lemma_hits_take_succ(events@, i as int, true);
                lemma_hits_take_succ(events@, i as int, false);
                events@.lemma_filter_map_take_succ(brick_of(), i as int);
                lemma_prefix_destroys_fewer(events@, i as int + 1);
            }
            match event.side {
                CollisionSide::Bottom | CollisionSide::Top => {
                    current.velocity.0.y = -current.velocity.0.y;
                },
                CollisionSide::Left | CollisionSide::Right => {
                    current.velocity.0.x = -current.velocity.0.x;
                },
            }
            if let Some(entity) = event.entity {
                if let CollisionType::Wall = event.collisiontype {
                    destroyed.push(entity);
                    count.0 = count.0 - 1;
                }
            }
            i += 1;
        }
        assert(events@.take(events.len() as int) == events@);
        *ball = Some(current);
    }
    destroyed
}

/// A single contact reverses the velocity component across the struck side
/// and no other, and flags the ball. A tick without contacts after it clears
/// the flag and leaves the velocity as the contact left it.
pub proof fn lemma_contact_then_quiet_tick(ball: Ball, event: CollisionEvent)
    requires
        ball.velocity.reversible(),
    ensures
        ({
            let struck = ball_after(Some(ball), seq![event]).unwrap();
            let rested = ball_after(Some(struck), Seq::empty()).unwrap();
            &&& event.side.is_horizontal() ==> struck.velocity.0.x == -ball.velocity.0.x
                && struck.velocity.0.y == ball.velocity.0.y
            &&& !event.side.is_horizontal() ==> struck.velocity.0.x == ball.velocity.0.x
                && struck.velocity.0.y == -ball.velocity.0.y
            &&& struck == (Ball { velocity: struck.velocity, collided: true, ..ball })
            &&& rested == (Ball { collided: false, ..struck })
        }),
{
    reveal_with_fuel(hits, 2);
}

/// Ticks without contacts leave the ball as it is, but for the flag, which
/// they clear; a second such tick changes nothing at all.
pub proof fn lemma_quiet_ticks_are_idempotent(ball: Ball)
    ensures
        ({
            let once = ball_after(Some(ball), Seq::empty());
            let twice = ball_after(once, Seq::empty());
            &&& once == Some(Ball { collided: false, ..ball })
            &&& twice == once
        }),
{
}

/// Two contacts across the same axis in one tick cancel out.
pub proof fn lemma_paired_contacts_cancel(ball: Ball, first: CollisionEvent, second: CollisionEvent)
    requires
        ball.velocity.reversible(),
        first.side.is_horizontal() == second.side.is_horizontal(),
    ensures
        ball_after(Some(ball), seq![first, second]) == Some(Ball { collided: true, ..ball }),
{
    reveal_with_fuel(hits, 3);
}

} // verus!
