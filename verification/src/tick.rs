//! How the passes of a tick fit together: what the scan reports against what
//! the responder does with it, over one tick and over many.

use vstd::prelude::*;
use crate::collision::CollisionEvent;
use crate::components::{Ball, Collider, ColliderKind};
use crate::geometry::{boundary_side, Circle};
use crate::resources::menu_due;
use crate::responder::{brick_of, destroyed_brick, destroyed_bricks};
use crate::scanner::{bricks, contact, scan_events};

verus! {

/// The counter after each of `events` has been consumed in a tick of its own,
/// with a ball in play.
pub open spec fn count_after_each(count: int, events: Seq<CollisionEvent>) -> int
    decreases events.len(),
{
    if events.len() == 0 {
        count
    } else {
        count_after_each(count, events.drop_last()) - destroyed_bricks(seq![events.last()]).len()
    }
}

/// The identity of `collider`, if it is a brick that `ball` touches.
pub open spec fn struck_brick(ball: Circle, collider: Collider) -> Option<u64> {
    if collider.kind == ColliderKind::Wall && boundary_side(ball, collider.rect()) is Some {
        Some(collider.entity)
    } else {
        None
    }
}

/// `struck_brick` for a fixed ball, as a function of the collider.
pub open spec fn struck_by(ball: Circle) -> spec_fn(Collider) -> Option<u64> {
    |collider: Collider| struck_brick(ball, collider)
}

/// How many of `colliders` are bricks that `ball` does not touch.
pub open spec fn spared_bricks(ball: Circle, colliders: Seq<Collider>) -> nat
    decreases colliders.len(),
{
    if colliders.len() == 0 {
        0
    } else if colliders.last().kind == ColliderKind::Wall && struck_brick(ball, colliders.last())
        is None {
        spared_bricks(ball, colliders.drop_last()) + 1
    } else {
        spared_bricks(ball, colliders.drop_last())
    }
}

/// Start with as many bricks on the counter as there are events, each of which
/// destroys a brick, and consume the events one tick at a time. After `k` of
/// them the counter stands at the number of events still to come: it never
/// drops below zero, and the menu is due after the last event and at no time
/// before.
pub proof fn lemma_counter_runs_out_with_the_bricks(events: Seq<CollisionEvent>, k: int)
    requires
        forall|i: int| 0 <= i < events.len() ==> (#[trigger] destroyed_brick(events[i])) is Some,
        0 <= k <= events.len(),
    ensures
        count_after_each(events.len() as int, events.take(k)) == events.len() - k,
        count_after_each(events.len() as int, events.take(k)) >= 0,
        menu_due(count_after_each(events.len() as int, events.take(k))) <==> k == events.len(),
    decreases k,
{
    if k > 0 {
        lemma_counter_runs_out_with_the_bricks(events, k - 1);
        assert(events.take(k).drop_last() == events.take(k - 1));
        Seq::lemma_filter_map_singleton(events[k - 1], brick_of());
    }
}

/// The scan of a scene is the scan of all but its last collider, followed by
/// the contact with the last collider if there is one.
proof fn lemma_scan_ends_with_the_last_collider(ball: Ball, colliders: Seq<Collider>)
    requires
        colliders.len() > 0,
    ensures
        scan_events(Some(ball), colliders) == match contact(ball.circle(), colliders.last()) {
            Some(event) => scan_events(Some(ball), colliders.drop_last()).push(event),
            None => scan_events(Some(ball), colliders.drop_last()),
        },
        destroyed_bricks(scan_events(Some(ball), colliders)) == match struck_brick(
            ball.circle(),
            colliders.last(),
        ) {
            Some(brick) => destroyed_bricks(scan_events(Some(ball), colliders.drop_last())).push(
                brick,
            ),
            None => destroyed_bricks(scan_events(Some(ball), colliders.drop_last())),
        },
{
    let found = scan_events(Some(ball), colliders.drop_last());
    match contact(ball.circle(), colliders.last()) {
        Some(event) => {
            assert(scan_events(Some(ball), colliders) == found.push(event));
            assert(found.push(event).drop_last() == found);
        },
        None => {},
    }
}

/// A scan reports at most one contact for each collider, and destroys no more
/// bricks than there are among the colliders.
pub proof fn lemma_scan_is_bounded_by_the_scene(ball: Option<Ball>, colliders: Seq<Collider>)
    ensures
        scan_events(ball, colliders).len() <= colliders.len(),
        destroyed_bricks(scan_events(ball, colliders)).len() <= bricks(colliders),
    decreases colliders.len(),
{
    if colliders.len() > 0 && ball is Some {
        lemma_scan_is_bounded_by_the_scene(ball, colliders.drop_last());
        lemma_scan_ends_with_the_last_collider(ball.unwrap(), colliders);
    }
}

/// A counter that stands no lower than the number of bricks among the
/// colliders is not driven below zero by a tick.
pub proof fn lemma_tick_keeps_counter_from_negative(ball: Option<Ball>, colliders: Seq<Collider>, count: int)
    requires
        count >= bricks(colliders),
    ensures
        count - destroyed_bricks(scan_events(ball, colliders)).len() >= 0,
{
    lemma_scan_is_bounded_by_the_scene(ball, colliders);
}

/// The bricks that a tick retires are the bricks that the ball touches, in the
/// order of the scene.
pub proof fn lemma_tick_retires_the_struck_bricks(ball: Ball, colliders: Seq<Collider>)
    ensures
        destroyed_bricks(scan_events(Some(ball), colliders)) == colliders.filter_map(
            struck_by(ball.circle()),
        ),
    decreases colliders.len(),
{
    if colliders.len() > 0 {
        lemma_tick_retires_the_struck_bricks(ball, colliders.drop_last());
        lemma_scan_ends_with_the_last_collider(ball, colliders);
    }
}

/// A counter that equals the number of bricks in the scene before a tick
/// equals, after it, the number of bricks that the ball did not touch: the
/// bricks that are left once the retired ones have lost their colliders.
pub proof fn lemma_counter_tracks_the_bricks(ball: Ball, colliders: Seq<Collider>, count: int)
    requires
        count == bricks(colliders),
    ensures
        count - destroyed_bricks(scan_events(Some(ball), colliders)).len() == spared_bricks(
            ball.circle(),
            colliders,
        ),
    decreases colliders.len(),
{
    lemma_tick_retires_the_struck_bricks(ball, colliders);
    if colliders.len() > 0 {
        let earlier = colliders.drop_last();
        lemma_tick_retires_the_struck_bricks(ball, earlier);
        lemma_counter_tracks_the_bricks(ball, earlier, bricks(earlier) as int);
    }
}

/// In a scene whose colliders have identities of their own, a tick retires no
/// brick twice, and the identities it retires are those of the bricks that the
/// ball touches and of no other collider.
pub proof fn lemma_tick_retires_each_struck_brick_once(ball: Ball, colliders: Seq<Collider>)
    requires
        forall|i: int, j: int|
            0 <= i < j < colliders.len() ==> colliders[i].entity != colliders[j].entity,
    ensures
        destroyed_bricks(scan_events(Some(ball), colliders)).no_duplicates(),
        forall|i: int|
            0 <= i < colliders.len() ==> (destroyed_bricks(
                scan_events(Some(ball), colliders),
            ).contains(#[trigger] colliders[i].entity) <==> struck_brick(ball.circle(), colliders[i])
                is Some),
    decreases colliders.len(),
{
    let circle = ball.circle();
    lemma_tick_retires_the_struck_bricks(ball, colliders);
    let retired = colliders.filter_map(struck_by(circle));
    if colliders.len() > 0 {
        let earlier = colliders.drop_last();
        let last = colliders.last();
        lemma_tick_retires_each_struck_brick_once(ball, earlier);
        lemma_tick_retires_the_struck_bricks(ball, earlier);
        let before = earlier.filter_map(struck_by(circle));
        lemma_retired_come_from_the_scene(circle, earlier);
        assert(!before.contains(last.entity)) by {
            if before.contains(last.entity) {
                let k = choose|k: int| 0 <= k < earlier.len() && earlier[k].entity == last.entity;
                assert(colliders[k].entity == colliders[colliders.len() - 1].entity);
            }
        }
        assert forall|i: int| 0 <= i < colliders.len() implies (retired.contains(
            #[trigger] colliders[i].entity,
        ) <==> struck_brick(circle, colliders[i]) is Some) by {
            if struck_brick(circle, last) is Some {
                assert(retired[retired.len() - 1] == last.entity);
                if i < earlier.len() && before.contains(earlier[i].entity) {
                    let k = choose|k: int| 0 <= k < before.len() && before[k] == earlier[i].entity;
                    assert(retired[k] == earlier[i].entity);
                }
            }
        }
    }
}

/// Every identity retired belongs to a collider of the scene.
proof fn lemma_retired_come_from_the_scene(ball: Circle, colliders: Seq<Collider>)
    ensures
        forall|id: u64| #[trigger]
            colliders.filter_map(struck_by(ball)).contains(id) ==> exists|k: int|
                0 <= k < colliders.len() && colliders[k].entity == id,
    decreases colliders.len(),
{
    if colliders.len() > 0 {
        let earlier = colliders.drop_last();
        lemma_retired_come_from_the_scene(ball, earlier);
        let before = earlier.filter_map(struck_by(ball));
        assert forall|id: u64| #[trigger]
            colliders.filter_map(struck_by(ball)).contains(id) implies exists|k: int|
            0 <= k < colliders.len() && colliders[k].entity == id by {
            if before.contains(id) {
                let k = choose|k: int| 0 <= k < earlier.len() && earlier[k].entity == id;
                assert(colliders[k].entity == id);
            } else {
                assert(colliders[colliders.len() - 1].entity == id);
            }
        }
    }
}

} // verus!
